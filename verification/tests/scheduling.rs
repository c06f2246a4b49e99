use std::cell::Cell;
use std::cell::RefCell;

use cdn_probe::address::Address;
use cdn_probe::enumerate::AddressEnumerator;
use cdn_probe::error::ScanError;
use cdn_probe::outcome::Action;
use cdn_probe::outcome::ProbeOutcome;
use cdn_probe::outcome::ProbeTask;
use cdn_probe::outcome::ProgressCounter;
use cdn_probe::range::AddressRange;
use cdn_probe::run::run;
use cdn_probe::scheduler::ProbeScheduler;
use cdn_probe::scheduler::DEFAULT_CONCURRENCY;
use cdn_probe::scheduler::DEFAULT_TIMEOUT_SECS;

fn hosts_of(text: &str) -> AddressEnumerator {
    AddressEnumerator::from_cidr(text).unwrap()
}

fn all_hosts(text: &str) -> Vec<Address> {
    let mut hosts = hosts_of(text);
    let mut all = Vec::new();
    while let Some(address) = hosts.next() {
        all.push(address);
    }
    all
}

fn sorted(mut addresses: Vec<Address>) -> Vec<Address> {
    addresses.sort();
    addresses
}

/// Drives a scheduler to its end. Whenever it has to wait, the probe in
/// flight at `pick(number in flight)` completes. Returns the result, the
/// dispatched addresses in order and the highest number in flight seen.
fn drive(
    text: &str,
    concurrency: usize,
    verdict: &dyn Fn(Address) -> ProbeOutcome,
    pick: &dyn Fn(usize) -> usize,
) -> (Vec<Address>, Vec<Address>, usize) {
    let mut scheduler = ProbeScheduler::new(hosts_of(text), concurrency, 3).unwrap();
    let mut running: Vec<Address> = Vec::new();
    let mut dispatched = Vec::new();
    let mut high_water = 0;
    loop {
        match scheduler.next_action() {
            Action::Dispatch(task) => {
                assert_eq!(task.timeout_secs, 3);
                running.push(task.address);
                dispatched.push(task.address);
            }
            Action::AwaitCompletion => {
                let address = running.remove(pick(running.len()));
                assert!(scheduler.complete(address, verdict(address)));
            }
            Action::Finished => break,
        }
        assert_eq!(scheduler.in_flight_count(), running.len());
        assert!(scheduler.in_flight_count() <= concurrency);
        high_water = high_water.max(running.len());
    }
    assert!(scheduler.is_finished());
    (scheduler.finish().unwrap().snapshot(), dispatched, high_water)
}

fn positive_on_odd(address: Address) -> ProbeOutcome {
    if address.bits() % 2 == 1 {
        ProbeOutcome::Positive
    } else if address.bits() % 4 == 0 {
        ProbeOutcome::Failed
    } else {
        ProbeOutcome::Negative
    }
}

#[test]
fn two_hosts_one_positive_ceiling_one() {
    let issued = Cell::new(0usize);
    let target = Address::from_octets(10, 0, 0, 1);
    let ended = run(hosts_of("10.0.0.0/30"), 1, 3, |task: ProbeTask| {
        issued.set(issued.get() + 1);
        if task.address == target {
            ProbeOutcome::Positive
        } else {
            ProbeOutcome::Negative
        }
    });
    assert_eq!(ended.unwrap().snapshot(), vec![target]);
    assert_eq!(issued.get(), 2);
}

#[test]
fn two_hosts_one_positive_step_by_step() {
    let first = Address::from_octets(10, 0, 0, 1);
    let second = Address::from_octets(10, 0, 0, 2);
    let mut scheduler = ProbeScheduler::new(hosts_of("10.0.0.0/30"), 1, 3).unwrap();
    assert_eq!(scheduler.progress(), ProgressCounter { dispatched: 0, total: 2 });
    assert_eq!(
        scheduler.next_action(),
        Action::Dispatch(ProbeTask { address: first, timeout_secs: 3 })
    );
    assert_eq!(scheduler.progress(), ProgressCounter { dispatched: 1, total: 2 });
    assert_eq!(scheduler.in_flight_count(), 1);
    assert_eq!(scheduler.next_action(), Action::AwaitCompletion);
    assert_eq!(scheduler.next_action(), Action::AwaitCompletion);
    assert_eq!(scheduler.in_flight_count(), 1);
    assert!(scheduler.complete(first, ProbeOutcome::Positive));
    assert_eq!(scheduler.in_flight_count(), 0);
    assert_eq!(scheduler.completed(), 1);
    assert!(!scheduler.is_finished());
    assert_eq!(
        scheduler.next_action(),
        Action::Dispatch(ProbeTask { address: second, timeout_secs: 3 })
    );
    assert_eq!(scheduler.progress(), ProgressCounter { dispatched: 2, total: 2 });
    assert_eq!(scheduler.next_action(), Action::AwaitCompletion);
    assert!(scheduler.complete(second, ProbeOutcome::Negative));
    assert_eq!(scheduler.next_action(), Action::Finished);
    assert_eq!(scheduler.next_action(), Action::Finished);
    assert!(scheduler.is_finished());
    assert_eq!(scheduler.completed(), 2);
    assert_eq!(scheduler.results().snapshot(), vec![first]);
    assert_eq!(scheduler.finish().unwrap().snapshot(), vec![first]);
}

#[test]
fn every_host_is_probed_exactly_once() {
    for concurrency in [1, 2, 3, 7, 100] {
        let calls = RefCell::new(Vec::new());
        let ended = run(hosts_of("192.0.2.0/27"), concurrency, 9, |task: ProbeTask| {
            assert_eq!(task.timeout_secs, 9);
            calls.borrow_mut().push(task.address);
            ProbeOutcome::Negative
        });
        assert!(ended.unwrap().is_empty());
        assert_eq!(calls.borrow().len(), hosts_of("192.0.2.0/27").count());
        assert_eq!(*calls.borrow(), all_hosts("192.0.2.0/27"));
    }
}

#[test]
fn every_host_is_dispatched_once_whatever_completes_first() {
    for concurrency in [1, 4, 30, 64] {
        let (_, dispatched, _) =
            drive("192.0.2.0/27", concurrency, &positive_on_odd, &|running| running - 1);
        assert_eq!(dispatched, all_hosts("192.0.2.0/27"));
        let (_, dispatched, _) =
            drive("192.0.2.0/27", concurrency, &positive_on_odd, &|running| running / 2);
        assert_eq!(dispatched, all_hosts("192.0.2.0/27"));
    }
}

#[test]
fn in_flight_count_never_exceeds_the_ceiling() {
    for concurrency in [1, 2, 5, 29, 30, 31, 1000] {
        let (_, _, high_water) =
            drive("192.0.2.0/27", concurrency, &positive_on_odd, &|running| running - 1);
        assert_eq!(high_water, concurrency.min(30));
        let (_, _, high_water) = drive("192.0.2.0/27", concurrency, &positive_on_odd, &|_| 0);
        assert_eq!(high_water, concurrency.min(30));
    }
}

#[test]
fn pure_probe_gives_the_same_result_twice() {
    let probe = |task: ProbeTask| positive_on_odd(task.address);
    let first = run(hosts_of("10.20.30.0/25"), 5, 3, probe).unwrap().snapshot();
    let second = run(hosts_of("10.20.30.0/25"), 5, 3, probe).unwrap().snapshot();
    assert_eq!(first, second);
    assert_eq!(first.len(), 63);
    let (newest_first, _, _) = drive("10.20.30.0/25", 8, &positive_on_odd, &|running| running - 1);
    let (oldest_first, _, _) = drive("10.20.30.0/25", 3, &positive_on_odd, &|_| 0);
    assert_ne!(newest_first, oldest_first);
    assert_eq!(sorted(newest_first), sorted(oldest_first.clone()));
    assert_eq!(oldest_first, first);
}

#[test]
fn all_probes_failing_gives_an_empty_result() {
    for concurrency in [1, 5, 300] {
        let issued = Cell::new(0usize);
        let ended = run(hosts_of("10.0.0.0/24"), concurrency, 3, |_task: ProbeTask| {
            issued.set(issued.get() + 1);
            ProbeOutcome::Failed
        });
        let set = ended.unwrap();
        assert!(set.is_empty());
        assert_eq!(set.len(), 0);
        assert_eq!(issued.get(), 254);
    }
    let (found, dispatched, _) = drive("10.0.0.0/24", 5, &|_| ProbeOutcome::Failed, &|_| 0);
    assert_eq!(found, Vec::<Address>::new());
    assert_eq!(dispatched.len(), 254);
}

#[test]
fn result_is_exactly_the_positive_subset() {
    let wanted = vec![
        Address::from_octets(10, 0, 0, 3),
        Address::from_octets(10, 0, 0, 17),
        Address::from_octets(10, 0, 0, 18),
        Address::from_octets(10, 0, 0, 254),
    ];
    let verdict = |address: Address| {
        if wanted.contains(&address) {
            ProbeOutcome::Positive
        } else if address.bits() % 2 == 0 {
            ProbeOutcome::Failed
        } else {
            ProbeOutcome::Negative
        }
    };
    for concurrency in [1, 5, wanted.len() + 10] {
        let ended = run(hosts_of("10.0.0.0/24"), concurrency, 3, |task: ProbeTask| {
            verdict(task.address)
        });
        assert_eq!(ended.unwrap().snapshot(), wanted);
        let (found, _, _) = drive("10.0.0.0/24", concurrency, &verdict, &|running| running - 1);
        assert_eq!(sorted(found), wanted);
    }
}

#[test]
fn positives_outside_the_range_do_not_appear() {
    let outside = Address::from_octets(10, 0, 1, 1);
    let inside = Address::from_octets(10, 0, 0, 1);
    let ended = run(hosts_of("10.0.0.0/30"), 2, 3, |task: ProbeTask| {
        if task.address == outside || task.address == inside {
            ProbeOutcome::Positive
        } else {
            ProbeOutcome::Negative
        }
    });
    assert_eq!(ended.unwrap().snapshot(), vec![inside]);
}

#[test]
fn range_without_hosts_is_rejected_before_any_probe() {
    let probed = Cell::new(false);
    let range = AddressRange::new(Address::from_octets(10, 0, 0, 0), 33);
    let ended = match AddressEnumerator::new(range) {
        Ok(hosts) => run(hosts, 1, 3, |_task: ProbeTask| {
            probed.set(true);
            ProbeOutcome::Positive
        }),
        Err(error) => Err(error),
    };
    assert_eq!(ended.err(), Some(ScanError::InvalidRange));
    assert!(!probed.get());
    assert_eq!(AddressEnumerator::from_cidr("10.0.0.0/33").err(), Some(ScanError::InvalidRange));
}

#[test]
fn ceiling_above_the_total_behaves_like_the_total() {
    let trace = |concurrency: usize| {
        let mut scheduler = ProbeScheduler::new(hosts_of("10.0.0.0/29"), concurrency, 3).unwrap();
        let mut running: Vec<Address> = Vec::new();
        let mut actions = Vec::new();
        loop {
            let action = scheduler.next_action();
            actions.push(action);
            match action {
                Action::Dispatch(task) => running.push(task.address),
                Action::AwaitCompletion => {
                    let address = running.remove(running.len() / 2);
                    scheduler.complete(address, positive_on_odd(address));
                }
                Action::Finished => break,
            }
        }
        (actions, scheduler.finish().unwrap().snapshot())
    };
    let at_total = trace(6);
    assert_eq!(trace(7), at_total);
    assert_eq!(trace(16), at_total);
    assert_eq!(trace(usize::MAX), at_total);
    assert_ne!(trace(5).0, at_total.0);
    for action in &at_total.0[..6] {
        assert!(matches!(action, Action::Dispatch(_)));
    }
    assert_eq!(at_total.0[6], Action::AwaitCompletion);
    let probe = |task: ProbeTask| positive_on_odd(task.address);
    assert_eq!(
        run(hosts_of("10.0.0.0/29"), 6, 3, probe).unwrap().snapshot(),
        run(hosts_of("10.0.0.0/29"), 60, 3, probe).unwrap().snapshot()
    );
}

#[test]
fn zero_concurrency_or_timeout_is_refused() {
    let probed = Cell::new(false);
    let probe = |_task: ProbeTask| {
        probed.set(true);
        ProbeOutcome::Positive
    };
    assert_eq!(
        run(hosts_of("10.0.0.0/30"), 0, 3, probe).err(),
        Some(ScanError::InvalidConfiguration)
    );
    assert_eq!(
        run(hosts_of("10.0.0.0/30"), 1, 0, probe).err(),
        Some(ScanError::InvalidConfiguration)
    );
    assert_eq!(
        run(hosts_of("10.0.0.0/30"), 0, 0, probe).err(),
        Some(ScanError::InvalidConfiguration)
    );
    assert!(!probed.get());
    assert_eq!(
        ProbeScheduler::new(hosts_of("10.0.0.0/30"), 0, 3).err(),
        Some(ScanError::InvalidConfiguration)
    );
    assert_eq!(
        ProbeScheduler::new(hosts_of("10.0.0.0/30"), 5, 0).err(),
        Some(ScanError::InvalidConfiguration)
    );
    assert!(ProbeScheduler::new(hosts_of("10.0.0.0/30"), 1, 1).is_ok());
}

#[test]
fn defaults_are_three_seconds_and_five_probes() {
    assert_eq!(DEFAULT_TIMEOUT_SECS, 3);
    assert_eq!(DEFAULT_CONCURRENCY, 5);
    let mut scheduler =
        ProbeScheduler::new(hosts_of("10.0.0.0/24"), DEFAULT_CONCURRENCY, DEFAULT_TIMEOUT_SECS)
            .unwrap();
    assert_eq!(scheduler.concurrency(), 5);
    assert_eq!(scheduler.timeout_secs(), 3);
    for _ in 0..5 {
        assert!(matches!(scheduler.next_action(), Action::Dispatch(_)));
    }
    assert_eq!(scheduler.next_action(), Action::AwaitCompletion);
    assert_eq!(scheduler.in_flight_count(), 5);
}

#[test]
fn scheduler_starts_at_the_first_host_of_a_used_enumerator() {
    let mut hosts = hosts_of("10.0.0.0/29");
    hosts.next();
    hosts.next();
    let mut scheduler = ProbeScheduler::new(hosts, 2, 3).unwrap();
    assert_eq!(
        scheduler.next_action(),
        Action::Dispatch(ProbeTask { address: Address::from_octets(10, 0, 0, 1), timeout_secs: 3 })
    );
}

#[test]
fn results_follow_the_order_of_arrival() {
    let mut scheduler = ProbeScheduler::new(hosts_of("10.0.0.0/29"), 3, 3).unwrap();
    let host = |d: u8| Address::from_octets(10, 0, 0, d);
    for d in 1..=3 {
        assert_eq!(
            scheduler.next_action(),
            Action::Dispatch(ProbeTask { address: host(d), timeout_secs: 3 })
        );
    }
    assert_eq!(scheduler.oldest_in_flight(), Some(host(1)));
    assert!(scheduler.complete(host(3), ProbeOutcome::Positive));
    assert!(scheduler.complete(host(1), ProbeOutcome::Positive));
    assert_eq!(scheduler.oldest_in_flight(), Some(host(2)));
    assert_eq!(scheduler.results().snapshot(), vec![host(3), host(1)]);
    assert_eq!(scheduler.in_flight_count(), 1);
    assert_eq!(
        scheduler.next_action(),
        Action::Dispatch(ProbeTask { address: host(4), timeout_secs: 3 })
    );
    assert!(scheduler.complete(host(2), ProbeOutcome::Failed));
    assert!(scheduler.complete(host(4), ProbeOutcome::Positive));
    assert_eq!(scheduler.oldest_in_flight(), None);
    assert_eq!(scheduler.results().snapshot(), vec![host(3), host(1), host(4)]);
}

#[test]
fn report_for_an_address_not_in_flight_is_ignored() {
    let mut scheduler = ProbeScheduler::new(hosts_of("10.0.0.0/29"), 2, 3).unwrap();
    let host = |d: u8| Address::from_octets(10, 0, 0, d);
    assert!(!scheduler.complete(host(1), ProbeOutcome::Positive));
    scheduler.next_action();
    assert!(!scheduler.complete(host(2), ProbeOutcome::Positive));
    assert!(!scheduler.complete(Address::V6(0x0A00_0001), ProbeOutcome::Positive));
    assert!(scheduler.complete(host(1), ProbeOutcome::Positive));
    assert!(!scheduler.complete(host(1), ProbeOutcome::Positive));
    assert_eq!(scheduler.results().snapshot(), vec![host(1)]);
    assert_eq!(scheduler.completed(), 1);
    assert_eq!(scheduler.in_flight_count(), 0);
}

#[test]
fn abandoned_run_has_no_result() {
    let mut scheduler = ProbeScheduler::new(hosts_of("10.0.0.0/29"), 2, 3).unwrap();
    let first = match scheduler.next_action() {
        Action::Dispatch(task) => task.address,
        other => panic!("unexpected {:?}", other),
    };
    assert!(scheduler.complete(first, ProbeOutcome::Positive));
    scheduler.next_action();
    assert!(!scheduler.is_aborted());
    scheduler.abort();
    assert!(scheduler.is_aborted());
    assert!(!scheduler.is_finished());
    assert_eq!(scheduler.next_action(), Action::Finished);
    assert!(!scheduler.complete(Address::from_octets(10, 0, 0, 2), ProbeOutcome::Positive));
    assert_eq!(scheduler.in_flight_count(), 1);
    assert_eq!(scheduler.finish().err(), Some(ScanError::SchedulerResource));
}

#[test]
fn run_left_before_its_end_has_no_result() {
    let mut scheduler = ProbeScheduler::new(hosts_of("10.0.0.0/30"), 2, 3).unwrap();
    scheduler.next_action();
    assert_eq!(scheduler.finish().err(), Some(ScanError::SchedulerResource));
    let fresh = ProbeScheduler::new(hosts_of("10.0.0.0/30"), 2, 3).unwrap();
    assert_eq!(fresh.finish().err(), Some(ScanError::SchedulerResource));
}

#[test]
fn single_host_runs_to_its_end() {
    let (found, dispatched, high_water) =
        drive("203.0.113.9/32", 5, &|_| ProbeOutcome::Positive, &|_| 0);
    let only = Address::from_octets(203, 0, 113, 9);
    assert_eq!(found, vec![only]);
    assert_eq!(dispatched, vec![only]);
    assert_eq!(high_water, 1);
}
