use transfer_manager::backoff::backoff_delay_ms;
use transfer_manager::error::{ErrorKind, TransferError};
use transfer_manager::planner::{plan, PartSpec, PlannerConfig};
use transfer_manager::scheduler::{
    Action, Event, PartState, Phase, Scheduler, SchedulerConfig,
};
use transfer_manager::types::PartResult;

fn four_parts() -> transfer_manager::planner::PartPlan {
    let config = PlannerConfig {
        min_part_size: 10,
        max_part_size: 100,
        max_parts: 10,
        target_part_count_hint: None,
    };
    // 35 bytes: parts of 10, 10, 10 and 5 bytes.
    plan(35, &config).unwrap()
}

fn limits(concurrency_limit: u32, max_attempts: u32) -> SchedulerConfig {
    SchedulerConfig { concurrency_limit, max_attempts, backoff_base_ms: 100, backoff_max_ms: 1000 }
}

fn moved(part_number: u32, bytes: u64) -> Event {
    Event::PartSucceeded {
        result: PartResult {
            part_number,
            remote_identifier: format!("etag-{part_number}"),
            checksum: None,
            bytes_transferred: bytes,
        },
    }
}

fn dispatch(part_number: u32, offset: u64, length: u64, attempt: u32) -> Action {
    Action::Dispatch { part: PartSpec { part_number, offset, length }, attempt }
}

#[test]
fn start_fills_the_slots_lowest_number_first() {
    let scheduler = Scheduler::new(four_parts(), limits(2, 3)).unwrap();
    assert_eq!(scheduler.state().phase(), Phase::Planning);
    assert_eq!(scheduler.in_flight(), 0);
    let (scheduler, actions) = scheduler.step(Event::Start);
    assert_eq!(actions, vec![dispatch(1, 0, 10, 1), dispatch(2, 10, 10, 1)]);
    assert_eq!(scheduler.state().phase(), Phase::Running);
    assert_eq!(scheduler.in_flight(), 2);
    assert_eq!(scheduler.state().part_state(1), Some(PartState::InFlight { attempt: 1 }));
    assert_eq!(scheduler.state().part_state(3), Some(PartState::Pending));
    assert_eq!(scheduler.state().part_state(0), None);
    assert_eq!(scheduler.state().part_state(5), None);
}

#[test]
fn a_second_start_changes_nothing() {
    let scheduler = Scheduler::new(four_parts(), limits(2, 3)).unwrap();
    let (scheduler, _) = scheduler.step(Event::Start);
    let (scheduler, actions) = scheduler.step(Event::Start);
    assert!(actions.is_empty());
    assert_eq!(scheduler.in_flight(), 2);
}

#[test]
fn limits_without_a_slot_or_an_attempt_are_refused() {
    for config in [limits(0, 3), limits(2, 0)] {
        assert_eq!(
            Scheduler::new(four_parts(), config).unwrap_err(),
            TransferError { kind: ErrorKind::InvalidConfiguration, part_number: None }
        );
    }
}

#[test]
fn all_parts_moved_completes_the_transfer() {
    let scheduler = Scheduler::new(four_parts(), limits(2, 3)).unwrap();
    let (scheduler, _) = scheduler.step(Event::Start);
    let (scheduler, actions) = scheduler.step(moved(2, 10));
    assert_eq!(
        actions,
        vec![Action::Progress { part_number: 2, bytes: 10 }, dispatch(3, 20, 10, 1)]
    );
    let (scheduler, actions) = scheduler.step(moved(1, 10));
    assert_eq!(
        actions,
        vec![Action::Progress { part_number: 1, bytes: 10 }, dispatch(4, 30, 5, 1)]
    );
    let (scheduler, actions) = scheduler.step(moved(4, 5));
    assert_eq!(actions, vec![Action::Progress { part_number: 4, bytes: 5 }]);
    assert!(scheduler.completion_list().is_none());
    let (scheduler, actions) = scheduler.step(moved(3, 10));
    assert_eq!(actions, vec![Action::Progress { part_number: 3, bytes: 10 }, Action::Finish]);
    assert_eq!(scheduler.state().phase(), Phase::Completed);
    assert!(scheduler.is_terminal());
    assert_eq!(scheduler.state().failure(), None);
    assert!(!scheduler.state().abort_issued());
}

#[test]
fn completion_list_is_in_part_number_order_whatever_the_completion_order() {
    let scheduler = Scheduler::new(four_parts(), limits(4, 1)).unwrap();
    let (mut scheduler, _) = scheduler.step(Event::Start);
    for number in [3, 1, 4, 2] {
        scheduler = scheduler.step(moved(number, 1)).0;
    }
    let list = scheduler.completion_list().unwrap();
    let numbers: Vec<u32> = list.iter().map(|p| p.part_number).collect();
    let identifiers: Vec<&str> = list.iter().map(|p| p.remote_identifier.as_str()).collect();
    assert_eq!(numbers, vec![1, 2, 3, 4]);
    assert_eq!(identifiers, vec!["etag-1", "etag-2", "etag-3", "etag-4"]);
}

#[test]
fn completed_parts_of_a_running_transfer_are_ascending() {
    let scheduler = Scheduler::new(four_parts(), limits(4, 1)).unwrap();
    let (mut scheduler, _) = scheduler.step(Event::Start);
    for number in [4, 2] {
        scheduler = scheduler.step(moved(number, 1)).0;
    }
    let numbers: Vec<u32> =
        scheduler.state().completed_parts().iter().map(|p| p.part_number).collect();
    assert_eq!(numbers, vec![2, 4]);
}

#[test]
fn transient_failures_short_of_the_limit_are_retried_until_the_part_succeeds() {
    let config = PlannerConfig {
        min_part_size: 10,
        max_part_size: 100,
        max_parts: 10,
        target_part_count_hint: None,
    };
    let scheduler = Scheduler::new(plan(5, &config).unwrap(), limits(1, 3)).unwrap();
    let (mut scheduler, actions) = scheduler.step(Event::Start);
    assert_eq!(actions, vec![dispatch(1, 0, 5, 1)]);
    // Two failures, one short of the three attempts allowed.
    for (attempt, delay_ms) in [(1u32, 100u64), (2, 200)] {
        let (next, actions) = scheduler
            .step(Event::PartFailed { part_number: 1, kind: ErrorKind::PartTransportError });
        assert_eq!(actions, vec![Action::Backoff { part_number: 1, delay_ms }]);
        assert_eq!(next.state().phase(), Phase::Running);
        assert_eq!(next.in_flight(), 0);
        assert_eq!(
            next.state().part_state(1),
            Some(PartState::Retrying { attempts: attempt, ready: false })
        );
        let (next, actions) = next.step(Event::BackoffElapsed { part_number: 1 });
        assert_eq!(actions, vec![dispatch(1, 0, 5, attempt + 1)]);
        assert!(next.in_flight() <= 1);
        scheduler = next;
    }
    let (scheduler, actions) = scheduler.step(moved(1, 5));
    assert_eq!(actions, vec![Action::Progress { part_number: 1, bytes: 5 }, Action::Finish]);
    assert_eq!(scheduler.state().phase(), Phase::Completed);
    assert_eq!(scheduler.state().failure(), None);
}

#[test]
fn checksum_mismatch_is_retried_like_a_transport_failure() {
    let scheduler = Scheduler::new(four_parts(), limits(1, 2)).unwrap();
    let (scheduler, _) = scheduler.step(Event::Start);
    let (scheduler, actions) = scheduler
        .step(Event::PartFailed { part_number: 1, kind: ErrorKind::PartChecksumMismatch });
    // The freed slot goes to the next pending part while part 1 waits.
    assert_eq!(
        actions,
        vec![Action::Backoff { part_number: 1, delay_ms: 100 }, dispatch(2, 10, 10, 1)]
    );
    assert_eq!(scheduler.state().phase(), Phase::Running);
}

#[test]
fn in_flight_parts_never_outnumber_the_limit() {
    let scheduler = Scheduler::new(four_parts(), limits(2, 2)).unwrap();
    let (mut scheduler, _) = scheduler.step(Event::Start);
    let events = vec![
        Event::PartFailed { part_number: 1, kind: ErrorKind::PartTransportError },
        Event::BackoffElapsed { part_number: 1 },
        moved(2, 10),
        Event::BackoffElapsed { part_number: 1 },
        moved(3, 10),
        moved(1, 10),
        moved(4, 5),
    ];
    for event in events {
        let (next, _) = scheduler.step(event);
        assert!(next.in_flight() <= 2);
        scheduler = next;
    }
    assert_eq!(scheduler.state().phase(), Phase::Completed);
}

#[test]
fn exhausted_retries_abort_the_transfer() {
    let scheduler = Scheduler::new(four_parts(), limits(2, 1)).unwrap();
    let (scheduler, _) = scheduler.step(Event::Start);
    let (scheduler, actions) =
        scheduler.step(Event::PartFailed { part_number: 2, kind: ErrorKind::PartTransportError });
    assert_eq!(actions, vec![Action::CancelPart { part_number: 1 }]);
    assert_eq!(scheduler.state().phase(), Phase::Aborting);
    assert_eq!(
        scheduler.state().failure(),
        Some(TransferError { kind: ErrorKind::PartTransportError, part_number: Some(2) })
    );
}

#[test]
fn fatal_failure_cancels_the_rest_and_aborts_the_session_once() {
    let scheduler = Scheduler::new(four_parts(), limits(3, 3)).unwrap();
    let (scheduler, _) = scheduler.step(Event::Start);
    let (scheduler, actions) =
        scheduler.step(Event::PartFailed { part_number: 2, kind: ErrorKind::SessionError });
    assert_eq!(
        actions,
        vec![Action::CancelPart { part_number: 1 }, Action::CancelPart { part_number: 3 }]
    );
    assert_eq!(scheduler.state().phase(), Phase::Aborting);
    assert_eq!(scheduler.state().part_state(2), Some(PartState::Failed));
    assert!(!scheduler.state().abort_issued());

    let mut aborts = 0;
    let mut all_actions = Vec::new();
    // One cancelled job stops, the other happens to finish its call.
    let (scheduler, actions) =
        scheduler.step(Event::PartFailed { part_number: 1, kind: ErrorKind::Cancelled });
    all_actions.extend(actions);
    assert!(!scheduler.state().abort_issued());
    let (scheduler, actions) = scheduler.step(moved(3, 10));
    all_actions.extend(actions);
    assert!(scheduler.state().abort_issued());
    let (scheduler, actions) = scheduler.step(Event::BackoffElapsed { part_number: 4 });
    all_actions.extend(actions);
    let (scheduler, actions) = scheduler.step(Event::SessionAborted);
    all_actions.extend(actions);
    let (scheduler, actions) = scheduler.step(Event::SessionAborted);
    all_actions.extend(actions);
    for action in &all_actions {
        if *action == Action::AbortSession {
            aborts += 1;
        }
        assert!(!matches!(action, Action::Dispatch { .. }));
    }
    assert_eq!(aborts, 1);
    assert_eq!(
        all_actions,
        vec![
            Action::Progress { part_number: 3, bytes: 10 },
            Action::AbortSession,
            Action::Finish
        ]
    );
    assert_eq!(scheduler.state().phase(), Phase::Aborted);
    assert!(scheduler.completion_list().is_none());
    assert_eq!(
        scheduler.state().failure(),
        Some(TransferError { kind: ErrorKind::SessionError, part_number: Some(2) })
    );
}

#[test]
fn failure_of_a_single_operation_ends_without_an_abort() {
    let config = PlannerConfig {
        min_part_size: 10,
        max_part_size: 100,
        max_parts: 10,
        target_part_count_hint: None,
    };
    let scheduler = Scheduler::new(plan(5, &config).unwrap(), limits(1, 1)).unwrap();
    let (scheduler, _) = scheduler.step(Event::Start);
    let (scheduler, actions) =
        scheduler.step(Event::PartFailed { part_number: 1, kind: ErrorKind::SourceUnreadable });
    assert_eq!(actions, vec![Action::Finish]);
    assert_eq!(scheduler.state().phase(), Phase::Failed);
    assert!(!scheduler.state().abort_issued());
}

#[test]
fn cancellation_stops_submitting_and_aborts() {
    let scheduler = Scheduler::new(four_parts(), limits(2, 3)).unwrap();
    let (scheduler, _) = scheduler.step(Event::Start);
    let (scheduler, actions) = scheduler.step(Event::CancelRequested);
    assert_eq!(
        actions,
        vec![Action::CancelPart { part_number: 1 }, Action::CancelPart { part_number: 2 }]
    );
    assert!(scheduler.state().is_cancelled());
    assert_eq!(
        scheduler.state().failure(),
        Some(TransferError { kind: ErrorKind::Cancelled, part_number: None })
    );
    let (scheduler, actions) =
        scheduler.step(Event::PartFailed { part_number: 1, kind: ErrorKind::Cancelled });
    assert!(actions.is_empty());
    let (scheduler, actions) =
        scheduler.step(Event::PartFailed { part_number: 2, kind: ErrorKind::Cancelled });
    assert_eq!(actions, vec![Action::AbortSession]);
    let (scheduler, actions) = scheduler.step(Event::SessionAborted);
    assert_eq!(actions, vec![Action::Finish]);
    assert_eq!(scheduler.state().phase(), Phase::Aborted);
}

#[test]
fn cancellation_before_the_start_ends_the_transfer() {
    let scheduler = Scheduler::new(four_parts(), limits(2, 3)).unwrap();
    let (scheduler, actions) = scheduler.step(Event::CancelRequested);
    assert_eq!(actions, vec![Action::Finish]);
    assert_eq!(scheduler.state().phase(), Phase::Failed);
    let (scheduler, actions) = scheduler.step(Event::Start);
    assert!(actions.is_empty());
    assert_eq!(scheduler.state().phase(), Phase::Failed);
}

#[test]
fn results_for_parts_not_in_flight_are_ignored() {
    let scheduler = Scheduler::new(four_parts(), limits(1, 3)).unwrap();
    let (scheduler, _) = scheduler.step(Event::Start);
    for event in [
        moved(3, 10),
        moved(0, 1),
        moved(9, 1),
        Event::PartFailed { part_number: 4, kind: ErrorKind::SessionError },
        Event::BackoffElapsed { part_number: 1 },
        Event::SessionAborted,
    ] {
        let before = scheduler.in_flight();
        let (next, actions) = Scheduler::new(four_parts(), limits(1, 3))
            .unwrap()
            .step(Event::Start)
            .0
            .step(event);
        assert!(actions.is_empty());
        assert_eq!(next.in_flight(), before);
        assert_eq!(next.state().phase(), Phase::Running);
    }
}

#[test]
fn retryable_kinds_are_transport_and_checksum_failures() {
    assert!(ErrorKind::PartTransportError.is_retryable());
    assert!(ErrorKind::PartChecksumMismatch.is_retryable());
    for kind in [
        ErrorKind::InvalidConfiguration,
        ErrorKind::SourceUnreadable,
        ErrorKind::SizeUnsupported,
        ErrorKind::SourceMutated,
        ErrorKind::SessionError,
        ErrorKind::Cancelled,
    ] {
        assert!(!kind.is_retryable());
    }
}

#[test]
fn backoff_doubles_up_to_the_cap() {
    assert_eq!(backoff_delay_ms(100, 1000, 0), 100);
    assert_eq!(backoff_delay_ms(100, 1000, 1), 100);
    assert_eq!(backoff_delay_ms(100, 1000, 2), 200);
    assert_eq!(backoff_delay_ms(100, 1000, 3), 400);
    assert_eq!(backoff_delay_ms(100, 1000, 4), 800);
    assert_eq!(backoff_delay_ms(100, 1000, 5), 1000);
    assert_eq!(backoff_delay_ms(100, 1000, u32::MAX), 1000);
    assert_eq!(backoff_delay_ms(0, 1000, 7), 0);
    assert_eq!(backoff_delay_ms(5000, 1000, 1), 1000);
    assert_eq!(backoff_delay_ms(1, u64::MAX, 64), 1 << 63);
    assert_eq!(backoff_delay_ms(1, u64::MAX, 65), u64::MAX);
    assert_eq!(backoff_delay_ms(3, u64::MAX, 200), u64::MAX);
}
