//! The bounded-concurrency probe scheduler.
//!
//! The scheduler owns every decision of a run and none of its waiting: a
//! driver polls it for the next action, starts the probes it hands out and
//! reports each outcome back. All of its methods take the scheduler
//! exclusively, so no two dispatch decisions and no two insertions into the
//! result overlap, however many probes run at once.

use vstd::prelude::*;
use crate::address::Address;
use crate::enumerate::lemma_hosts_distinct;
use crate::enumerate::AddressEnumerator;
use crate::error::ScanError;
use crate::model::lemma_completion_inv;
use crate::model::lemma_counts;
use crate::model::lemma_init_inv;
use crate::model::lemma_poll_inv;
use crate::model::lemma_positives_empty;
use crate::model::lemma_positives_push;
use crate::model::positives;
use crate::model::SchedulerModel;
use crate::outcome::Action;
use crate::outcome::Completion;
use crate::outcome::ProbeOutcome;
use crate::outcome::ProbeTask;
use crate::outcome::ProgressCounter;
use crate::results::ResultSet;

verus! {

/// The time a probe may take where none is given, in seconds.
pub const DEFAULT_TIMEOUT_SECS: u64 = 3;

/// The ceiling on probes in flight where none is given.
pub const DEFAULT_CONCURRENCY: usize = 5;

/// One run over the hosts of a range, with at most a fixed number of probes
/// in flight.
pub struct ProbeScheduler {
    hosts: AddressEnumerator,
    concurrency: usize,
    timeout_secs: u64,
    in_flight: Vec<Address>,
    results: ResultSet,
    completed: usize,
    aborted: bool,
    log: Ghost<Seq<Completion>>,
}

impl View for ProbeScheduler {
    type V = SchedulerModel;

    closed spec fn view(&self) -> SchedulerModel {
        SchedulerModel {
            hosts: self.hosts.hosts(),
            concurrency: self.concurrency as nat,
            timeout_secs: self.timeout_secs,
            dispatched: self.hosts.consumed(),
            in_flight: self.in_flight@,
            log: self.log@,
            aborted: self.aborted,
        }
    }
}

impl ProbeScheduler {
    /// Whether the stored result and counters agree with the history of the
    /// run.
    pub closed spec fn consistent(&self) -> bool {
        &&& self.hosts.wf()
        &&& self.results@ == positives(self.log@)
        &&& self.completed == self.log@.len()
    }

    /// The invariant of a scheduler: its state is one of a run, and what it
    /// stores agrees with it.
    pub open spec fn wf(&self) -> bool {
        self.consistent() && self@.inv()
    }

    /// A scheduler for a run over all hosts of `hosts`, from the first on,
    /// with at most `concurrency` probes in flight and `timeout_secs` seconds
    /// for each probe. Both numbers must be positive.
    pub fn new(hosts: AddressEnumerator, concurrency: usize, timeout_secs: u64) -> (made: Result<
        ProbeScheduler,
        ScanError,
    >)
        requires
            hosts.wf(),
        ensures
            match made {
                Ok(scheduler) => concurrency >= 1 && timeout_secs >= 1 && scheduler.wf()
                    && scheduler@ == SchedulerModel::init(
                    hosts.hosts(),
                    concurrency as nat,
                    timeout_secs,
                ),
                Err(error) => error == ScanError::InvalidConfiguration && (concurrency == 0
                    || timeout_secs == 0),
            },
    {
        if concurrency == 0 || timeout_secs == 0 {
            return Err(ScanError::InvalidConfiguration);
        }
        let mut hosts = hosts;
        hosts.restart();
        proof {
            hosts.lemma_wf();
            lemma_hosts_distinct(hosts.range());
            lemma_init_inv(hosts.hosts(), concurrency as nat, timeout_secs);
            lemma_positives_empty();
        }
        Ok(
            ProbeScheduler {
                hosts,
                concurrency,
                timeout_secs,
                in_flight: Vec::new(),
                results: ResultSet::new(),
                completed: 0,
                aborted: false,
                log: Ghost(Seq::empty()),
            },
        )
    }

    /// Decides what the driver does next. Where the answer is a probe, that
    /// probe is in flight when the call returns: decision and dispatch are
    /// one step.
    pub fn next_action(&mut self) -> (action: Action)
        requires
            old(self).wf(),
        ensures
            final(self).wf(),
            action == old(self)@.decide(),
            final(self)@ == old(self)@.after_poll(),
    {
        if self.aborted {
            return Action::Finished;
        }
        proof {
            lemma_poll_inv(self@);
        }
        if self.in_flight.len() < self.concurrency {
            match self.hosts.next() {
                Some(address) => {
                    self.in_flight.push(address);
                    return Action::Dispatch(
                        ProbeTask { address, timeout_secs: self.timeout_secs },
                    );
                },
                None => {},
            }
        }
        if self.in_flight.len() > 0 {
            Action::AwaitCompletion
        } else {
            Action::Finished
        }
    }

    /// Takes the outcome of the probe of `address`. The probe leaves the
    /// probes in flight, and its address enters the result if the outcome is
    /// positive. Returns whether the report was taken: one for an address that
    /// is not in flight, or after the run was abandoned, changes nothing.
    pub fn complete(&mut self, address: Address, outcome: ProbeOutcome) -> (taken: bool)
        requires
            old(self).wf(),
        ensures
            final(self).wf(),
            taken == old(self)@.accepts(address),
            final(self)@ == old(self)@.after_completion(address, outcome),
    {
        if self.aborted {
            return false;
        }
        let mut index: usize = 0;
        while index < self.in_flight.len() && self.in_flight[index] != address
            invariant
                index <= self.in_flight@.len(),
                forall|k: int| 0 <= k < index ==> self.in_flight@[k] != address,
            decreases self.in_flight@.len() - index,
        {
            index = index + 1;
        }
        if index == self.in_flight.len() {
            return false;
        }
        proof {
            self.hosts.lemma_wf();
            lemma_counts(self@);
            lemma_completion_inv(self@, address, outcome);
            lemma_positives_push(self.log@, Completion { address, outcome });
            self.in_flight@.index_of_first_ensures(address);
        }
        self.in_flight.remove(index);
        if outcome.is_positive() {
            self.results.insert(address);
        }
        self.completed = self.completed + 1;
        self.log = Ghost(self.log@.push(Completion { address, outcome }));
        true
    }

    /// Abandons the run: no further probe is handed out and no further
    /// outcome is taken.
    pub fn abort(&mut self)
        requires
            old(self).wf(),
        ensures
            final(self).wf(),
            final(self)@ == old(self)@.after_abort(),
    {
        self.aborted = true;
    }

    /// The number of probes in flight; never above the ceiling.
    pub fn in_flight_count(&self) -> (count: usize)
        requires
            self.wf(),
        ensures
            count == self@.in_flight.len(),
            count <= self@.concurrency,
    {
        self.in_flight.len()
    }

    /// The ceiling on probes in flight.
    pub fn concurrency(&self) -> (ceiling: usize)
        ensures
            ceiling == self@.concurrency,
    {
        self.concurrency
    }

    /// The time each probe may take, in seconds.
    pub fn timeout_secs(&self) -> (seconds: u64)
        ensures
            seconds == self@.timeout_secs,
    {
        self.timeout_secs
    }

    /// How many hosts were dispatched, of how many.
    pub fn progress(&self) -> (progress: ProgressCounter)
        requires
            self.wf(),
        ensures
            progress.dispatched == self@.dispatched,
            progress.total == self@.hosts.len(),
            progress.dispatched <= progress.total,
    {
        ProgressCounter { dispatched: self.hosts.position(), total: self.hosts.count() }
    }

    /// The number of outcomes taken so far.
    pub fn completed(&self) -> (count: usize)
        requires
            self.wf(),
        ensures
            count == self@.log.len(),
            count + self@.in_flight.len() == self@.dispatched,
    {
        proof {
            lemma_counts(self@);
        }
        self.completed
    }

    /// The probe in flight that was dispatched first, if any is in flight.
    pub fn oldest_in_flight(&self) -> (oldest: Option<Address>)
        ensures
            oldest == if self@.in_flight.len() > 0 {
                Some(self@.in_flight[0])
            } else {
                None
            },
    {
        if self.in_flight.len() > 0 {
            Some(self.in_flight[0])
        } else {
            None
        }
    }

    /// Whether every host has its outcome.
    pub fn is_finished(&self) -> (finished: bool)
        requires
            self.wf(),
        ensures
            finished == self@.finished(),
    {
        !self.aborted && self.hosts.remaining() == 0 && self.in_flight.len() == 0
    }

    /// Whether the run was abandoned.
    pub fn is_aborted(&self) -> (aborted: bool)
        ensures
            aborted == self@.aborted,
    {
        self.aborted
    }

    /// The addresses classified positive so far.
    pub fn results(&self) -> (set: &ResultSet)
        requires
            self.wf(),
        ensures
            set@ == self@.results(),
    {
        &self.results
    }

    /// Ends the run and hands over the result. A run that was abandoned, or
    /// that is left before every host has its outcome, has no result: what it
    /// had gathered is discarded.
    pub fn finish(self) -> (ended: Result<ResultSet, ScanError>)
        requires
            self.wf(),
        ensures
            match ended {
                Ok(set) => self@.finished() && set@ == self@.results(),
                Err(error) => error == ScanError::SchedulerResource && !self@.finished(),
            },
    {
        if !self.aborted && self.hosts.remaining() == 0 && self.in_flight.len() == 0 {
            Ok(self.results)
        } else {
            Err(ScanError::SchedulerResource)
        }
    }
}

} // verus!
