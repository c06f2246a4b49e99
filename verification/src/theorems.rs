//! What holds of every run, proved over the scheduler's model.

use vstd::prelude::*;
use vstd::multiset::group_multiset_axioms;
use vstd::seq_lib::group_to_multiset_ensures;
use crate::address::Address;
use crate::model::addresses;
use crate::model::after_events;
use crate::model::lemma_abort_inv;
use crate::model::lemma_completion_inv;
use crate::model::lemma_counts;
use crate::model::lemma_init_inv;
use crate::model::lemma_poll_inv;
use crate::model::lemma_positives_push;
use crate::model::positives;
use crate::model::step;
use crate::model::Event;
use crate::model::SchedulerModel;
use crate::outcome::Action;
use crate::outcome::Completion;
use crate::outcome::ProbeOutcome;
use crate::outcome::ProbeTask;
use crate::run::faithful_log;

verus! {

/// Whether the log holds a positive outcome for `address`.
pub open spec fn positive_in(log: Seq<Completion>, address: Address) -> bool {
    exists|i: int|
        0 <= i < log.len() && (#[trigger] log[i]).address == address
            && log[i].outcome.spec_is_positive()
}

/// Whether the outcomes in the log are positive for exactly the addresses in
/// `wanted`.
pub open spec fn positive_exactly_on(log: Seq<Completion>, wanted: Set<Address>) -> bool {
    forall|i: int|
        0 <= i < log.len() ==> ((#[trigger] log[i]).outcome.spec_is_positive() <==> wanted.contains(
            log[i].address,
        ))
}

/// Whether each outcome in the log is the one that `verdict` gives for its
/// address.
pub open spec fn agrees_with(log: Seq<Completion>, verdict: spec_fn(Address) -> ProbeOutcome) -> bool {
    forall|i: int| 0 <= i < log.len() ==> (#[trigger] log[i]).outcome == verdict(log[i].address)
}

/// Whether two states differ in nothing but the ceiling.
pub open spec fn same_but_ceiling(a: SchedulerModel, b: SchedulerModel) -> bool {
    b == SchedulerModel { concurrency: b.concurrency, ..a }
}

/// An address is among the positives of a log exactly if the log holds a
/// positive outcome for it.
pub proof fn lemma_positives_contains(log: Seq<Completion>, address: Address)
    ensures
        positives(log).contains(address) <==> positive_in(log, address),
    decreases log.len(),
{
    if log.len() > 0 {
        let rest = log.drop_last();
        let last = log.last();
        assert(log =~= rest.push(last));
        lemma_positives_push(rest, last);
        lemma_positives_contains(rest, address);
        if positive_in(rest, address) {
            let i = choose|i: int|
                0 <= i < rest.len() && (#[trigger] rest[i]).address == address
                    && rest[i].outcome.spec_is_positive();
            assert(log[i] == rest[i]);
        }
        if positive_in(log, address) && !positive_in(rest, address) {
            let i = choose|i: int|
                0 <= i < log.len() && (#[trigger] log[i]).address == address
                    && log[i].outcome.spec_is_positive();
            assert(i < rest.len() ==> rest[i] == log[i]);
        }
        if last.outcome.spec_is_positive() {
            let found = positives(rest).push(last.address);
            assert(found[found.len() - 1] == last.address);
            if positives(rest).contains(address) {
                let k = choose|k: int| 0 <= k < positives(rest).len() && positives(rest)[k] == address;
                assert(found[k] == address);
            }
        }
    }
}

/// Where no address occurs twice in a log, none occurs twice among its
/// positives.
pub proof fn lemma_positives_distinct(log: Seq<Completion>)
    requires
        addresses(log).no_duplicates(),
    ensures
        positives(log).no_duplicates(),
    decreases log.len(),
{
    if log.len() > 0 {
        let rest = log.drop_last();
        let last = log.last();
        assert(log =~= rest.push(last));
        lemma_positives_push(rest, last);
        assert forall|i: int, j: int| 0 <= i < rest.len() && 0 <= j < rest.len() && i != j implies addresses(
            rest,
        )[i] != addresses(rest)[j] by {
            assert(addresses(log)[i] == rest[i].address);
            assert(addresses(log)[j] == rest[j].address);
        }
        lemma_positives_distinct(rest);
        if last.outcome.spec_is_positive() {
            lemma_positives_contains(rest, last.address);
            if positive_in(rest, last.address) {
                let i = choose|i: int|
                    0 <= i < rest.len() && (#[trigger] rest[i]).address == last.address
                        && rest[i].outcome.spec_is_positive();
                assert(addresses(log)[i] == last.address);
                assert(addresses(log)[log.len() - 1] == last.address);
            }
        }
    }
}

/// A log without a positive outcome yields an empty result: a run in which
/// every probe fails or is negative finds nothing.
pub proof fn theorem_no_positive_no_result(log: Seq<Completion>)
    requires
        forall|i: int| 0 <= i < log.len() ==> !(#[trigger] log[i]).outcome.spec_is_positive(),
    ensures
        positives(log) == Seq::<Address>::empty(),
    decreases log.len(),
{
    if log.len() > 0 {
        let rest = log.drop_last();
        assert(log =~= rest.push(log.last()));
        lemma_positives_push(rest, log.last());
        assert forall|i: int| 0 <= i < rest.len() implies !(#[trigger] rest[i]).outcome.spec_is_positive() by {
            assert(rest[i] == log[i]);
        }
        theorem_no_positive_no_result(rest);
    }
}

/// Every state that a run can reach, by whatever events in whatever order,
/// satisfies the invariant: at no instant are more probes in flight than the
/// ceiling allows.
pub proof fn theorem_ceiling_respected(
    hosts: Seq<Address>,
    concurrency: nat,
    timeout_secs: u64,
    events: Seq<Event>,
)
    requires
        hosts.no_duplicates(),
        concurrency >= 1,
        timeout_secs >= 1,
    ensures
        after_events(SchedulerModel::init(hosts, concurrency, timeout_secs), events).inv(),
        after_events(SchedulerModel::init(hosts, concurrency, timeout_secs), events).concurrency
            == concurrency,
        after_events(SchedulerModel::init(hosts, concurrency, timeout_secs), events).hosts == hosts,
        after_events(SchedulerModel::init(hosts, concurrency, timeout_secs), events).in_flight.len()
            <= concurrency,
    decreases events.len(),
{
    let start = SchedulerModel::init(hosts, concurrency, timeout_secs);
    if events.len() == 0 {
        lemma_init_inv(hosts, concurrency, timeout_secs);
    } else {
        theorem_ceiling_respected(hosts, concurrency, timeout_secs, events.drop_last());
        let before = after_events(start, events.drop_last());
        match events.last() {
            Event::Poll => lemma_poll_inv(before),
            Event::Completed(address, outcome) => lemma_completion_inv(before, address, outcome),
            Event::Abort => lemma_abort_inv(before),
        }
    }
}

/// At the end of a run every host has exactly one outcome on record, and the
/// record holds no other address: no host is probed twice and none is left
/// out.
pub proof fn theorem_each_host_probed_once(m: SchedulerModel)
    requires
        m.inv(),
        m.finished(),
    ensures
        m.log.len() == m.hosts.len(),
        addresses(m.log).no_duplicates(),
        addresses(m.log).to_multiset() == m.hosts.to_multiset(),
        forall|address: Address| addresses(m.log).contains(address) <==> m.hosts.contains(address),
{
    broadcast use group_multiset_axioms, group_to_multiset_ensures;

    lemma_counts(m);
    let arrived = addresses(m.log);
    assert(m.hosts.take(m.dispatched as int) =~= m.hosts);
    assert(arrived.to_multiset().add(m.in_flight.to_multiset()) =~= arrived.to_multiset());
    m.hosts.lemma_multiset_has_no_duplicates();
    arrived.lemma_multiset_has_no_duplicates_conv();
    assert forall|address: Address| arrived.contains(address) <==> m.hosts.contains(address) by {
        assert(arrived.contains(address) <==> arrived.to_multiset().count(address) > 0);
    }
}

/// At every instant of a run the result holds no address twice, and none
/// that is not a host whose outcome has arrived.
pub proof fn theorem_no_address_twice(m: SchedulerModel)
    requires
        m.inv(),
    ensures
        addresses(m.log).no_duplicates(),
        m.results().no_duplicates(),
        forall|address: Address|
            m.results().contains(address) ==> m.hosts.contains(address) && !m.in_flight.contains(
                address,
            ),
{
    broadcast use group_multiset_axioms, group_to_multiset_ensures;

    let arrived = addresses(m.log);
    let issued = m.hosts.take(m.dispatched as int);
    issued.lemma_multiset_has_no_duplicates();
    assert forall|x: Address| arrived.to_multiset().contains(x) implies arrived.to_multiset().count(
        x,
    ) == 1 by {
        assert(arrived.to_multiset().add(m.in_flight.to_multiset()).count(x)
            == issued.to_multiset().count(x));
    }
    arrived.lemma_multiset_has_no_duplicates_conv();
    lemma_positives_distinct(m.log);
    assert forall|address: Address| m.results().contains(address) implies m.hosts.contains(address)
        && !m.in_flight.contains(address) by {
        lemma_positives_contains(m.log, address);
        let i = choose|i: int|
            0 <= i < m.log.len() && (#[trigger] m.log[i]).address == address
                && m.log[i].outcome.spec_is_positive();
        assert(arrived[i] == address);
        assert(arrived.to_multiset().add(m.in_flight.to_multiset()).count(address)
            == issued.to_multiset().count(address));
        let k = choose|k: int| 0 <= k < issued.len() && issued[k] == address;
        assert(m.hosts[k] == address);
    }
}

/// The result only grows: whatever happens to a run, the addresses found
/// before are still there, in the same places.
pub proof fn theorem_result_only_grows(m: SchedulerModel, event: Event)
    ensures
        m.results().is_prefix_of(step(m, event).results()),
        m.log.is_prefix_of(step(m, event).log),
{
    match event {
        Event::Completed(address, outcome) => {
            lemma_positives_push(m.log, Completion { address, outcome });
        },
        _ => {},
    }
}

/// A failed probe weighs like a negative one: either way the probe leaves
/// the probes in flight, and the result stays as it was.
pub proof fn theorem_failed_counts_as_negative(m: SchedulerModel, address: Address)
    ensures
        m.after_completion(address, ProbeOutcome::Failed).results() == m.results(),
        m.after_completion(address, ProbeOutcome::Negative).results() == m.results(),
        m.after_completion(address, ProbeOutcome::Failed).in_flight == m.after_completion(
            address,
            ProbeOutcome::Negative,
        ).in_flight,
{
    lemma_positives_push(m.log, Completion { address, outcome: ProbeOutcome::Failed });
    lemma_positives_push(m.log, Completion { address, outcome: ProbeOutcome::Negative });
}

/// Where the probe is positive for exactly the addresses in `wanted`, the
/// result of a run holds exactly the hosts in `wanted`, each once, whatever
/// the ceiling and whatever the order in which the probes completed.
pub proof fn theorem_result_is_wanted_hosts(m: SchedulerModel, wanted: Set<Address>)
    requires
        m.inv(),
        m.finished(),
        positive_exactly_on(m.log, wanted),
    ensures
        m.results().no_duplicates(),
        m.results().to_set() == Set::new(
            |address: Address| m.hosts.contains(address) && wanted.contains(address),
        ),
{
    theorem_each_host_probed_once(m);
    lemma_positives_distinct(m.log);
    let expected = Set::new(|address: Address| m.hosts.contains(address) && wanted.contains(address));
    assert forall|address: Address| m.results().to_set().contains(address) <==> expected.contains(
        address,
    ) by {
        lemma_positives_contains(m.log, address);
        if positive_in(m.log, address) {
            let i = choose|i: int|
                0 <= i < m.log.len() && (#[trigger] m.log[i]).address == address
                    && m.log[i].outcome.spec_is_positive();
            assert(addresses(m.log)[i] == address);
        }
        if expected.contains(address) {
            let k = choose|k: int| 0 <= k < addresses(m.log).len() && addresses(m.log)[k] == address;
            assert(m.log[k].address == address);
        }
    }
}

/// Two runs over the same hosts whose probes are the same function of the
/// address end with the same addresses in their results, whatever their
/// ceilings and completion orders.
pub proof fn theorem_runs_agree(
    first: SchedulerModel,
    second: SchedulerModel,
    verdict: spec_fn(Address) -> ProbeOutcome,
)
    requires
        first.inv(),
        first.finished(),
        second.inv(),
        second.finished(),
        first.hosts == second.hosts,
        agrees_with(first.log, verdict),
        agrees_with(second.log, verdict),
    ensures
        first.results().to_set() == second.results().to_set(),
{
    let wanted = Set::new(|address: Address| verdict(address).spec_is_positive());
    theorem_result_is_wanted_hosts(first, wanted);
    theorem_result_is_wanted_hosts(second, wanted);
}

/// A run that is neither finished nor abandoned is never stuck: the scheduler
/// either dispatches, or waits while a probe is in flight, and each dispatch
/// and each completion it takes brings the end one step nearer.
pub proof fn theorem_no_deadlock(m: SchedulerModel, address: Address, outcome: ProbeOutcome)
    requires
        m.inv(),
        !m.aborted,
    ensures
        m.decide() == Action::Finished <==> m.finished(),
        m.decide() is Dispatch ==> m.after_poll().work_left() + 1 == m.work_left(),
        m.decide() == Action::AwaitCompletion ==> m.in_flight.len() > 0,
        m.accepts(address) ==> m.after_completion(address, outcome).work_left() + 1
            == m.work_left(),
        m.finished() <==> m.work_left() == 0,
{
    if m.accepts(address) {
        m.in_flight.index_of_first_ensures(address);
    }
}

/// With a ceiling at or above the number of hosts the ceiling is never
/// reached: while a host is left, the next poll dispatches it.
pub proof fn theorem_large_ceiling_never_waits(m: SchedulerModel)
    requires
        m.inv(),
        !m.aborted,
        m.concurrency >= m.hosts.len(),
        m.dispatched < m.hosts.len(),
    ensures
        m.decide() == Action::Dispatch(m.task(m.dispatched as int)),
{
    lemma_counts(m);
}

/// Two runs whose ceilings are both at or above the number of hosts behave
/// alike: from states that differ only in the ceiling, every event leads to
/// the same decision and to states that again differ only in the ceiling.
pub proof fn theorem_ceiling_beyond_total(a: SchedulerModel, b: SchedulerModel, event: Event)
    requires
        a.inv(),
        b.inv(),
        same_but_ceiling(a, b),
        a.concurrency >= a.hosts.len(),
        b.concurrency >= b.hosts.len(),
    ensures
        a.decide() == b.decide(),
        same_but_ceiling(step(a, event), step(b, event)),
        step(a, event).results() == step(b, event).results(),
{
    lemma_counts(a);
}

/// The same over whole runs: the same events lead two runs with ceilings at
/// or above the number of hosts through the same decisions to the same
/// result.
pub proof fn theorem_ceiling_beyond_total_runs(
    hosts: Seq<Address>,
    ceiling: nat,
    other_ceiling: nat,
    timeout_secs: u64,
    events: Seq<Event>,
)
    requires
        hosts.no_duplicates(),
        timeout_secs >= 1,
        ceiling >= 1,
        other_ceiling >= 1,
        ceiling >= hosts.len(),
        other_ceiling >= hosts.len(),
    ensures
        same_but_ceiling(
            after_events(SchedulerModel::init(hosts, ceiling, timeout_secs), events),
            after_events(SchedulerModel::init(hosts, other_ceiling, timeout_secs), events),
        ),
        after_events(SchedulerModel::init(hosts, ceiling, timeout_secs), events).decide()
            == after_events(
            SchedulerModel::init(hosts, other_ceiling, timeout_secs),
            events,
        ).decide(),
        after_events(SchedulerModel::init(hosts, ceiling, timeout_secs), events).results()
            == after_events(
            SchedulerModel::init(hosts, other_ceiling, timeout_secs),
            events,
        ).results(),
    decreases events.len(),
{
    let a = SchedulerModel::init(hosts, ceiling, timeout_secs);
    let b = SchedulerModel::init(hosts, other_ceiling, timeout_secs);
    theorem_ceiling_respected(hosts, ceiling, timeout_secs, events);
    theorem_ceiling_respected(hosts, other_ceiling, timeout_secs, events);
    if events.len() > 0 {
        let earlier = events.drop_last();
        theorem_ceiling_beyond_total_runs(hosts, ceiling, other_ceiling, timeout_secs, earlier);
        theorem_ceiling_respected(hosts, ceiling, timeout_secs, earlier);
        theorem_ceiling_respected(hosts, other_ceiling, timeout_secs, earlier);
        theorem_ceiling_beyond_total(
            after_events(a, earlier),
            after_events(b, earlier),
            events.last(),
        );
    }
    lemma_counts(after_events(a, events));
}

/// Whether `probe` is a function of the address: whatever it returns for a
/// task is what `verdict` gives for the task's address.
pub open spec fn decided_by<F: Fn(ProbeTask) -> ProbeOutcome>(
    probe: F,
    verdict: spec_fn(Address) -> ProbeOutcome,
) -> bool {
    forall|task: ProbeTask, outcome: ProbeOutcome|
        call_ensures(probe, (task,), outcome) ==> outcome == verdict(task.address)
}

/// Whether `probe` is positive for exactly the addresses that `wanted` holds
/// of.
pub open spec fn positive_where<F: Fn(ProbeTask) -> ProbeOutcome>(
    probe: F,
    wanted: spec_fn(Address) -> bool,
) -> bool {
    forall|task: ProbeTask, outcome: ProbeOutcome|
        call_ensures(probe, (task,), outcome) ==> (outcome.spec_is_positive() <==> wanted(
            task.address,
        ))
}

/// Where the outcomes of a log are positive exactly on the addresses that
/// `wanted` holds of, the positives of the log are those addresses of the
/// log, in the log's order.
pub proof fn lemma_positives_filter(log: Seq<Completion>, wanted: spec_fn(Address) -> bool)
    requires
        forall|i: int|
            0 <= i < log.len() ==> ((#[trigger] log[i]).outcome.spec_is_positive() <==> wanted(
                log[i].address,
            )),
    ensures
        positives(log) == addresses(log).filter(wanted),
    decreases log.len(),
{
    reveal(Seq::filter);
    if log.len() > 0 {
        let rest = log.drop_last();
        assert forall|i: int| 0 <= i < rest.len() implies ((#[trigger] rest[i]).outcome.spec_is_positive()
            <==> wanted(rest[i].address)) by {
            assert(rest[i] == log[i]);
        }
        lemma_positives_filter(rest, wanted);
        assert(addresses(log).drop_last() =~= addresses(rest));
    }
}

/// A completed run with a probe that is positive for exactly the addresses
/// that `wanted` holds of returns exactly those hosts, in ascending order,
/// whatever the ceiling.
pub proof fn theorem_run_finds_wanted<F: Fn(ProbeTask) -> ProbeOutcome>(
    log: Seq<Completion>,
    hosts: Seq<Address>,
    timeout_secs: u64,
    probe: F,
    wanted: spec_fn(Address) -> bool,
)
    requires
        faithful_log(log, hosts, timeout_secs, probe),
        positive_where(probe, wanted),
    ensures
        positives(log) == hosts.filter(wanted),
{
    assert(addresses(log) =~= hosts);
    assert forall|i: int| 0 <= i < log.len() implies ((#[trigger] log[i]).outcome.spec_is_positive()
        <==> wanted(log[i].address)) by {
        assert(call_ensures(
            probe,
            (ProbeTask { address: hosts[i], timeout_secs },),
            log[i].outcome,
        ));
    }
    lemma_positives_filter(log, wanted);
}

/// Two completed runs over the same hosts with a probe that is a function of
/// the address record the same outcomes and return the same result.
pub proof fn theorem_run_repeatable<F: Fn(ProbeTask) -> ProbeOutcome>(
    first: Seq<Completion>,
    second: Seq<Completion>,
    hosts: Seq<Address>,
    timeout_secs: u64,
    probe: F,
    verdict: spec_fn(Address) -> ProbeOutcome,
)
    requires
        faithful_log(first, hosts, timeout_secs, probe),
        faithful_log(second, hosts, timeout_secs, probe),
        decided_by(probe, verdict),
    ensures
        first == second,
        positives(first) == positives(second),
{
    assert forall|i: int| 0 <= i < first.len() implies first[i] == second[i] by {
        let task = ProbeTask { address: hosts[i], timeout_secs };
        assert(call_ensures(probe, (task,), first[i].outcome));
        assert(call_ensures(probe, (task,), second[i].outcome));
    }
    assert(first =~= second);
}

} // verus!
