//! A run of the scheduler to its end, with probes that are plain calls.

use vstd::prelude::*;
use crate::address::Address;
use crate::enumerate::AddressEnumerator;
use crate::error::ScanError;
use crate::model::addresses;
use crate::model::after_events;
use crate::model::step;
use crate::model::Event;
use crate::model::SchedulerModel;
use crate::model::positives;
use crate::outcome::Action;
use crate::outcome::Completion;
use crate::outcome::ProbeOutcome;
use crate::outcome::ProbeTask;
use crate::results::ResultSet;
use crate::scheduler::ProbeScheduler;

verus! {

/// Whether `log` records one probe of each of `hosts`, in their order, each
/// with an outcome that `probe` can give for it.
pub open spec fn faithful_log<F: Fn(ProbeTask) -> ProbeOutcome>(
    log: Seq<Completion>,
    hosts: Seq<Address>,
    timeout_secs: u64,
    probe: F,
) -> bool {
    &&& log.len() == hosts.len()
    &&& forall|i: int|
        0 <= i < log.len() ==> (#[trigger] log[i]).address == hosts[i] && call_ensures(
            probe,
            (ProbeTask { address: hosts[i], timeout_secs },),
            log[i].outcome,
        )
}

/// Whether `events` lead a run over `hosts` from its start to its end, and
/// `log` is what that run recorded: one probe of each host, in order, each
/// with an outcome that `probe` can give for it.
pub open spec fn completed_run<F: Fn(ProbeTask) -> ProbeOutcome>(
    log: Seq<Completion>,
    events: Seq<Event>,
    hosts: Seq<Address>,
    concurrency: nat,
    timeout_secs: u64,
    probe: F,
) -> bool {
    &&& faithful_log(log, hosts, timeout_secs, probe)
    &&& after_events(SchedulerModel::init(hosts, concurrency, timeout_secs), events).finished()
    &&& after_events(SchedulerModel::init(hosts, concurrency, timeout_secs), events).log == log
}

/// One more event leads one step further.
pub proof fn lemma_after_one_more(m: SchedulerModel, events: Seq<Event>, event: Event)
    ensures
        after_events(m, events.push(event)) == step(after_events(m, events), event),
{
    assert(events.push(event).drop_last() =~= events);
}

/// Probes every host of `hosts` once, in ascending order, and returns the
/// addresses that `probe` classified positive, in that order. The call is one
/// run of the scheduler: at most `concurrency` probes are in flight, and when
/// the ceiling is reached the oldest of them is completed before the next
/// host is dispatched.
pub fn run<F: Fn(ProbeTask) -> ProbeOutcome>(
    hosts: AddressEnumerator,
    concurrency: usize,
    timeout_secs: u64,
    probe: F,
) -> (ended: Result<ResultSet, ScanError>)
    requires
        hosts.wf(),
        forall|i: int|
            0 <= i < hosts.hosts().len() ==> call_requires(
                probe,
                (ProbeTask { address: #[trigger] hosts.hosts()[i], timeout_secs },),
            ),
    ensures
        match ended {
            Ok(set) => concurrency >= 1 && timeout_secs >= 1 && exists|
                log: Seq<Completion>,
                events: Seq<Event>,
            |
                #![trigger completed_run(log, events, hosts.hosts(), concurrency as nat, timeout_secs, probe)]
                completed_run(log, events, hosts.hosts(), concurrency as nat, timeout_secs, probe)
                    && set@ == positives(log),
            Err(error) => error == ScanError::InvalidConfiguration && (concurrency == 0
                || timeout_secs == 0),
        },
{
    let mut scheduler = match ProbeScheduler::new(hosts, concurrency, timeout_secs) {
        Ok(scheduler) => scheduler,
        Err(error) => {
            return Err(error);
        },
    };
    let ghost start = scheduler@;
    let ghost mut events: Seq<Event> = Seq::empty();
    let mut pending: Vec<ProbeOutcome> = Vec::new();
    loop
        invariant
            scheduler.wf(),
            !scheduler@.aborted,
            start == SchedulerModel::init(hosts.hosts(), concurrency as nat, timeout_secs),
            scheduler@ == after_events(start, events),
            scheduler@.hosts == hosts.hosts(),
            scheduler@.timeout_secs == timeout_secs,
            scheduler@.concurrency == concurrency >= 1,
            timeout_secs >= 1,
            forall|i: int|
                0 <= i < hosts.hosts().len() ==> call_requires(
                    probe,
                    (ProbeTask { address: #[trigger] hosts.hosts()[i], timeout_secs },),
                ),
            addresses(scheduler@.log) + scheduler@.in_flight == scheduler@.hosts.take(
                scheduler@.dispatched as int,
            ),
            pending@.len() == scheduler@.in_flight.len(),
            forall|j: int|
                0 <= j < pending@.len() ==> call_ensures(
                    probe,
                    (ProbeTask { address: scheduler@.in_flight[j], timeout_secs },),
                    #[trigger] pending@[j],
                ),
            forall|i: int|
                0 <= i < scheduler@.log.len() ==> call_ensures(
                    probe,
                    (ProbeTask { address: (#[trigger] scheduler@.log[i]).address, timeout_secs },),
                    scheduler@.log[i].outcome,
                ),
        decreases scheduler@.work_left(),
    {
        let ghost before = scheduler@;
        let action = scheduler.next_action();
        proof {
            lemma_after_one_more(start, events, Event::Poll);
            events = events.push(Event::Poll);
        }
        match action {
            Action::Dispatch(task) => {
                let outcome = probe(task);
                pending.push(outcome);
                assert(before.hosts.take(before.dispatched as int + 1) =~= before.hosts.take(
                    before.dispatched as int,
                ).push(task.address));
            },
            Action::AwaitCompletion => {
                let address = scheduler.oldest_in_flight().unwrap();
                let outcome = pending.remove(0);
                proof {
                    before.in_flight.index_of_first_ensures(address);
                    lemma_after_one_more(start, events, Event::Completed(address, outcome));
                    events = events.push(Event::Completed(address, outcome));
                }
                scheduler.complete(address, outcome);
            },
            Action::Finished => {
                proof {
                    let log = scheduler@.log;
                    assert(scheduler@.hosts.take(scheduler@.dispatched as int) =~= scheduler@.hosts);
                    assert forall|i: int| 0 <= i < log.len() implies (#[trigger] log[i]).address
                        == hosts.hosts()[i] by {
                        assert(addresses(log)[i] == log[i].address);
                    }
                    assert(completed_run(
                        log,
                        events,
                        hosts.hosts(),
                        concurrency as nat,
                        timeout_secs,
                        probe,
                    ));
                }
                return scheduler.finish();
            },
        }
    }
}

} // verus!
