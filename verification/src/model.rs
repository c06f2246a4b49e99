//! The scheduler as a state machine over mathematical values.
//!
//! A state records which hosts were dispatched, which of them are still in
//! flight and which outcomes have arrived, in their order of arrival. The
//! executable scheduler refines the transitions defined here.

use vstd::prelude::*;
use vstd::multiset::group_multiset_axioms;
use vstd::seq_lib::group_to_multiset_ensures;
use crate::address::Address;
use crate::outcome::Action;
use crate::outcome::Completion;
use crate::outcome::ProbeOutcome;
use crate::outcome::ProbeTask;

verus! {

/// The addresses of the probes in a log, in the log's order.
pub open spec fn addresses(log: Seq<Completion>) -> Seq<Address> {
    Seq::new(log.len(), |i: int| log[i].address)
}

/// The addresses whose outcome in the log is positive, in the log's order.
pub open spec fn positives(log: Seq<Completion>) -> Seq<Address> {
    addresses(log.filter(|arrival: Completion| arrival.outcome.spec_is_positive()))
}

/// The state of one run.
pub struct SchedulerModel {
    /// The hosts to probe, in dispatch order.
    pub hosts: Seq<Address>,
    /// The ceiling on probes in flight.
    pub concurrency: nat,
    /// The time each probe may take, in seconds.
    pub timeout_secs: u64,
    /// How many hosts were dispatched: the first `dispatched` of `hosts`.
    pub dispatched: nat,
    /// The dispatched hosts whose outcome has not arrived, oldest first.
    pub in_flight: Seq<Address>,
    /// The outcomes that arrived, in their order of arrival.
    pub log: Seq<Completion>,
    /// Whether the run was abandoned.
    pub aborted: bool,
}

impl SchedulerModel {
    /// The state before anything was dispatched.
    pub open spec fn init(hosts: Seq<Address>, concurrency: nat, timeout_secs: u64) -> Self {
        SchedulerModel {
            hosts,
            concurrency,
            timeout_secs,
            dispatched: 0,
            in_flight: Seq::empty(),
            log: Seq::empty(),
            aborted: false,
        }
    }

    /// The task for the host at `index`.
    pub open spec fn task(self, index: int) -> ProbeTask {
        ProbeTask { address: self.hosts[index], timeout_secs: self.timeout_secs }
    }

    /// Whether the next host may be dispatched: one is left and the ceiling
    /// is not reached.
    pub open spec fn has_room(self) -> bool {
        &&& !self.aborted
        &&& self.dispatched < self.hosts.len()
        &&& self.in_flight.len() < self.concurrency
    }

    /// What the driver is told when it polls in this state.
    pub open spec fn decide(self) -> Action {
        if self.has_room() {
            Action::Dispatch(self.task(self.dispatched as int))
        } else if !self.aborted && self.in_flight.len() > 0 {
            Action::AwaitCompletion
        } else {
            Action::Finished
        }
    }

    /// The state after a poll: where a probe was handed out it is in flight.
    pub open spec fn after_poll(self) -> Self {
        if self.has_room() {
            SchedulerModel {
                dispatched: self.dispatched + 1,
                in_flight: self.in_flight.push(self.hosts[self.dispatched as int]),
                ..self
            }
        } else {
            self
        }
    }

    /// Whether a completion for `address` is taken: the address is in flight
    /// and the run goes on.
    pub open spec fn accepts(self, address: Address) -> bool {
        !self.aborted && self.in_flight.contains(address)
    }

    /// The state after the probe of `address` reported `outcome`. A report
    /// for an address that is not in flight changes nothing.
    pub open spec fn after_completion(self, address: Address, outcome: ProbeOutcome) -> Self {
        if self.accepts(address) {
            SchedulerModel {
                in_flight: self.in_flight.remove_value(address),
                log: self.log.push(Completion { address, outcome }),
                ..self
            }
        } else {
            self
        }
    }

    /// The state after the run was abandoned.
    pub open spec fn after_abort(self) -> Self {
        SchedulerModel { aborted: true, ..self }
    }

    /// Whether every host has its outcome.
    pub open spec fn finished(self) -> bool {
        &&& !self.aborted
        &&& self.dispatched == self.hosts.len()
        &&& self.in_flight.len() == 0
    }

    /// The addresses classified positive so far, in order of arrival.
    pub open spec fn results(self) -> Seq<Address> {
        positives(self.log)
    }

    /// What holds of every state of a run: the ceiling is respected, and the
    /// hosts dispatched so far are, each exactly once, either in flight or in
    /// the log.
    pub open spec fn inv(self) -> bool {
        &&& self.concurrency >= 1
        &&& self.timeout_secs >= 1
        &&& self.hosts.no_duplicates()
        &&& self.dispatched <= self.hosts.len()
        &&& self.in_flight.len() <= self.concurrency
        &&& addresses(self.log).to_multiset().add(self.in_flight.to_multiset())
            =~= self.hosts.take(self.dispatched as int).to_multiset()
    }

    /// The work that is left: two steps for each host not yet dispatched, one
    /// for each probe in flight.
    pub open spec fn work_left(self) -> nat {
        (2 * (self.hosts.len() - self.dispatched) + self.in_flight.len()) as nat
    }
}

/// What can happen to a run: the driver polls, a probe reports, or the run is
/// abandoned.
pub enum Event {
    Poll,
    Completed(Address, ProbeOutcome),
    Abort,
}

/// The state after one event.
pub open spec fn step(m: SchedulerModel, event: Event) -> SchedulerModel {
    match event {
        Event::Poll => m.after_poll(),
        Event::Completed(address, outcome) => m.after_completion(address, outcome),
        Event::Abort => m.after_abort(),
    }
}

/// The state after a sequence of events, first to last.
pub open spec fn after_events(m: SchedulerModel, events: Seq<Event>) -> SchedulerModel
    decreases events.len(),
{
    if events.len() == 0 {
        m
    } else {
        step(after_events(m, events.drop_last()), events.last())
    }
}

/// Appending an arrival appends its address.
pub proof fn lemma_addresses_push(log: Seq<Completion>, arrival: Completion)
    ensures
        addresses(log.push(arrival)) == addresses(log).push(arrival.address),
{
}

/// Appending an arrival appends its address to the positives exactly where
/// its outcome is positive.
pub proof fn lemma_positives_push(log: Seq<Completion>, arrival: Completion)
    ensures
        positives(log.push(arrival)) == if arrival.outcome.spec_is_positive() {
            positives(log).push(arrival.address)
        } else {
            positives(log)
        },
{
    let positive = |arrival: Completion| arrival.outcome.spec_is_positive();
    log.lemma_filter_push(arrival, positive);
}

/// An empty log has no positives.
pub proof fn lemma_positives_empty()
    ensures
        positives(Seq::<Completion>::empty()) == Seq::<Address>::empty(),
{
}

/// The initial state of a run over distinct hosts satisfies the invariant.
pub proof fn lemma_init_inv(hosts: Seq<Address>, concurrency: nat, timeout_secs: u64)
    requires
        hosts.no_duplicates(),
        concurrency >= 1,
        timeout_secs >= 1,
    ensures
        SchedulerModel::init(hosts, concurrency, timeout_secs).inv(),
{
    broadcast use group_multiset_axioms, group_to_multiset_ensures;

}

/// In every state of a run the arrivals and the probes in flight together
/// number the hosts dispatched.
pub proof fn lemma_counts(m: SchedulerModel)
    requires
        m.inv(),
    ensures
        m.log.len() + m.in_flight.len() == m.dispatched,
{
    broadcast use group_multiset_axioms, group_to_multiset_ensures;

    m.hosts.take(m.dispatched as int).to_multiset_ensures();
}

/// A poll keeps the invariant.
pub proof fn lemma_poll_inv(m: SchedulerModel)
    requires
        m.inv(),
    ensures
        m.after_poll().inv(),
{
    broadcast use group_multiset_axioms, group_to_multiset_ensures;

    if m.has_room() {
        let host = m.hosts[m.dispatched as int];
        assert(m.hosts.take(m.dispatched as int + 1) =~= m.hosts.take(m.dispatched as int).push(
            host,
        ));
    }
}

/// A completion keeps the invariant.
pub proof fn lemma_completion_inv(m: SchedulerModel, address: Address, outcome: ProbeOutcome)
    requires
        m.inv(),
    ensures
        m.after_completion(address, outcome).inv(),
{
    broadcast use group_multiset_axioms, group_to_multiset_ensures;

    if m.accepts(address) {
        m.in_flight.index_of_first_ensures(address);
        lemma_addresses_push(m.log, Completion { address, outcome });
    }
}

/// Abandoning the run keeps the invariant.
pub proof fn lemma_abort_inv(m: SchedulerModel)
    requires
        m.inv(),
    ensures
        m.after_abort().inv(),
{
}

} // verus!
