use mail_pinger::config::ConfigError;
use mail_pinger::probe::{EndpointRecord, FailureKind, Probe, ProbeOutcome, StepResult};
use mail_pinger::scheduler::{tally, Directive, RunResult, Scheduler};
use std::collections::VecDeque;

fn record(server: &str) -> EndpointRecord {
    EndpointRecord {
        server: server.to_string(),
        user: "bob".to_string(),
        secret: "secret".to_string(),
    }
}

/// Probes an endpoint against a server that completes every step.
fn probe_against_a_willing_server(record: &EndpointRecord) -> ProbeOutcome {
    let mut probe = Probe::start(record.clone());
    while probe.pending().is_some() {
        probe.advance(StepResult::Completed);
    }
    probe.outcome().unwrap()
}

/// Runs the scheduler over scripted outcomes. The probes in flight end in
/// the order in which they were handed out if `oldest_first`, else the
/// youngest ends first. Returns the result and the highest number of probes
/// that were in flight at once.
fn run(outcomes: &[bool], workers: usize, oldest_first: bool) -> (RunResult, usize, Vec<usize>) {
    let mut scheduler = Scheduler::new(outcomes.len(), workers).unwrap();
    let mut in_flight: VecDeque<usize> = VecDeque::new();
    let mut dispatched = Vec::new();
    let mut peak = 0;
    loop {
        match scheduler.poll() {
            Directive::Dispatch(index) => {
                in_flight.push_back(index);
                dispatched.push(index);
                peak = peak.max(in_flight.len());
                assert_eq!(scheduler.in_flight(), in_flight.len());
            }
            Directive::Wait => {
                let index =
                    if oldest_first { in_flight.pop_front() } else { in_flight.pop_back() }.unwrap();
                assert!(scheduler.complete(outcomes[index]));
            }
            Directive::Done(result) => {
                assert!(in_flight.is_empty());
                assert_eq!(result, scheduler.result());
                return (result, peak, dispatched);
            }
        }
    }
}

#[test]
fn scheduler_counts_every_endpoint_whatever_the_workers() {
    let outcomes = [true, false, true, true, false, true, false];
    let n = outcomes.len();
    let expected = RunResult { attempted: 7, succeeded: 4 };
    for workers in [1, n, 2 * n] {
        for oldest_first in [true, false] {
            let (result, peak, dispatched) = run(&outcomes, workers, oldest_first);
            assert_eq!(result, expected);
            assert_eq!(peak, workers.min(n));
            assert_eq!(dispatched, (0..n).collect::<Vec<usize>>());
        }
    }
}

#[test]
fn scheduler_all_succeed_and_all_fail() {
    for n in [1usize, 2, 5, 16] {
        for workers in [1, n, 2 * n] {
            let (result, _, _) = run(&vec![true; n], workers, true);
            assert_eq!(result, RunResult { attempted: n, succeeded: n });
            let (result, _, _) = run(&vec![false; n], workers, false);
            assert_eq!(result, RunResult { attempted: n, succeeded: 0 });
        }
    }
}

#[test]
fn scheduler_never_exceeds_its_workers() {
    let outcomes = vec![true; 23];
    for workers in 1..30 {
        let (result, peak, _) = run(&outcomes, workers, true);
        assert_eq!(result.attempted, 23);
        assert_eq!(peak, workers.min(23));
    }
}

#[test]
fn scheduler_without_endpoints_is_done_at_once() {
    let mut scheduler = Scheduler::new(0, 10).unwrap();
    assert_eq!(scheduler.poll(), Directive::Done(RunResult { attempted: 0, succeeded: 0 }));
    assert_eq!(scheduler.in_flight(), 0);
    assert_eq!(scheduler.result(), RunResult { attempted: 0, succeeded: 0 });
    assert_eq!(tally(&Vec::new()), RunResult { attempted: 0, succeeded: 0 });
}

#[test]
fn scheduler_rejects_zero_workers() {
    assert!(matches!(Scheduler::new(5, 0), Err(ConfigError::InvalidWorkerCount)));
    assert!(matches!(Scheduler::new(0, 0), Err(ConfigError::InvalidWorkerCount)));
    assert!(Scheduler::new(5, 1).is_ok());
}

#[test]
fn scheduler_counts_nothing_that_is_not_in_flight() {
    let mut scheduler = Scheduler::new(2, 2).unwrap();
    assert!(!scheduler.complete(true));
    assert_eq!(scheduler.result(), RunResult { attempted: 0, succeeded: 0 });
    assert_eq!(scheduler.poll(), Directive::Dispatch(0));
    assert!(scheduler.complete(true));
    assert!(!scheduler.complete(true));
    assert_eq!(scheduler.result(), RunResult { attempted: 1, succeeded: 1 });
    assert_eq!(scheduler.poll(), Directive::Dispatch(1));
    assert_eq!(scheduler.poll(), Directive::Wait);
    assert_eq!(scheduler.poll(), Directive::Wait);
    assert!(scheduler.complete(false));
    assert_eq!(scheduler.poll(), Directive::Done(RunResult { attempted: 2, succeeded: 1 }));
    assert!(!scheduler.complete(true));
    assert_eq!(scheduler.poll(), Directive::Done(RunResult { attempted: 2, succeeded: 1 }));
}

#[test]
fn scheduler_with_one_worker_probes_one_by_one() {
    let mut scheduler = Scheduler::new(3, 1).unwrap();
    assert_eq!(scheduler.poll(), Directive::Dispatch(0));
    assert_eq!(scheduler.poll(), Directive::Wait);
    assert!(scheduler.complete(false));
    assert_eq!(scheduler.poll(), Directive::Dispatch(1));
    assert_eq!(scheduler.in_flight(), 1);
    assert!(scheduler.complete(true));
    assert_eq!(scheduler.poll(), Directive::Dispatch(2));
    assert!(scheduler.complete(true));
    assert_eq!(scheduler.poll(), Directive::Done(RunResult { attempted: 3, succeeded: 2 }));
}

#[test]
fn one_good_and_one_bad_endpoint() {
    let records = vec![record("mail.example.com:993"), record("bad::host")];
    let mut scheduler = Scheduler::new(records.len(), 2).unwrap();
    let mut waiting = Vec::new();
    let mut outcomes = Vec::new();
    let result = loop {
        match scheduler.poll() {
            Directive::Dispatch(index) => waiting.push(index),
            Directive::Wait => {
                let outcome = probe_against_a_willing_server(&records[waiting.remove(0)]);
                assert!(scheduler.complete(outcome.is_success()));
                outcomes.push(outcome);
            }
            Directive::Done(result) => break result,
        }
    };
    assert_eq!(result, RunResult { attempted: 2, succeeded: 1 });
    assert_eq!(outcomes[0], ProbeOutcome::Success);
    assert!(matches!(
        &outcomes[1],
        ProbeOutcome::Failure { kind: FailureKind::Address(e), server, .. }
            if *e == mail_pinger::address::AddressError::TooManyColons && server == "bad::host"
    ));
    assert_eq!(tally(&outcomes), result);
}

#[test]
fn a_failing_probe_leaves_its_siblings_alone() {
    let all_good = [true, true, true, true];
    for failing in 0..4 {
        let mut outcomes = all_good;
        outcomes[failing] = false;
        for workers in [1, 2, 4, 8] {
            let (result, _, _) = run(&outcomes, workers, true);
            assert_eq!(result, RunResult { attempted: 4, succeeded: 3 });
        }
    }
}

#[test]
fn tally_counts_successes() {
    let failure = ProbeOutcome::Failure {
        kind: FailureKind::Timeout,
        reason: "timed out".to_string(),
        server: "h:1".to_string(),
        user: "u".to_string(),
    };
    let outcomes =
        vec![ProbeOutcome::Success, failure.clone(), ProbeOutcome::Success, failure.clone()];
    assert_eq!(tally(&outcomes), RunResult { attempted: 4, succeeded: 2 });
    assert_eq!(tally(&vec![failure]), RunResult { attempted: 1, succeeded: 0 });
    assert_eq!(tally(&vec![ProbeOutcome::Success]), RunResult { attempted: 1, succeeded: 1 });
}
