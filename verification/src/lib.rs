//! Bounded-concurrency scanning of an address range for hosts that answer as a
//! CDN edge for a given hostname.
//!
//! The crate holds the decisions of such a scan and proves them: which
//! addresses a range contains ([`range`], [`enumerate`]), when the next probe
//! may start and what the result is in the end ([`scheduler`], [`run`]), and
//! how one response is classified ([`probe`]). Sockets, tasks and files belong
//! to the program that drives it: it polls the scheduler, starts the probes it
//! is handed and reports their outcomes back.
//!
//! [`model`] describes the scheduler as a state machine over mathematical
//! values, and [`theorems`] proves what holds of every run of it: each host is
//! probed exactly once, the number of probes in flight never exceeds the
//! ceiling, and the result is exactly the set of hosts with a positive
//! outcome, whatever the ceiling and the order in which probes complete.
//! [`cidr`] holds the calls into the `ipnet` crate, whose contracts are
//! believed rather than proved.

pub mod address;
pub mod cidr;
pub mod enumerate;
pub mod error;
pub mod model;
pub mod outcome;
pub mod probe;
pub mod range;
pub mod results;
pub mod run;
pub mod scheduler;
pub mod theorems;
