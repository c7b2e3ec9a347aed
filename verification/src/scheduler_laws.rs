//! What follows from the scheduler's transition function: how failures are
//! retried, how a transfer winds down, and that the remote session is never
//! aborted twice nor completed after a failure.

use vstd::prelude::*;
use crate::backoff::backoff_delay;
use crate::error::TransferError;
use crate::planner::PartSpec;
use crate::scheduler::{
    Action, Event, PartState, Phase, SchedulerConfig, TransferStateView, all_succeeded,
    attempt_of, attempts_in_range, begin_abort, cancel_actions, coherent, consistent, eligible,
    fill_actions, fill_parts, in_flight_count, launched, lemma_counts_of_idle,
    lemma_in_flight_update, names_in_flight, names_waiting, next, settle, settle_ready,
};

verus! {

/// A transfer that has recorded a failure or has ended without completing.
pub open spec fn winding_down(phase: Phase) -> bool {
    phase == Phase::Aborting || phase == Phase::Aborted || phase == Phase::Failed
}

/// Filling slots only ever submits: it leaves ineligible parts as they are.
pub proof fn lemma_fill_parts_shape(parts: Seq<PartState>, from: int, free: int)
    requires
        0 <= from,
    ensures
        fill_parts(parts, from, free).len() == parts.len(),
        forall|i: int|
            0 <= i < parts.len() ==> (#[trigger] fill_parts(parts, from, free)[i]) == parts[i] || (
            eligible(parts[i]) && fill_parts(parts, from, free)[i] == launched(parts[i])),
    decreases parts.len() - from,
{
    if from < parts.len() && free > 0 {
        if eligible(parts[from]) {
            let stepped = parts.update(from, launched(parts[from]));
            lemma_fill_parts_shape(stepped, from + 1, free - 1);
            assert forall|i: int| 0 <= i < parts.len() implies (#[trigger] fill_parts(
                parts,
                from,
                free,
            )[i]) == parts[i] || (eligible(parts[i]) && fill_parts(parts, from, free)[i]
                == launched(parts[i])) by {
                let filled = fill_parts(stepped, from + 1, free - 1);
                assert(filled[i] == stepped[i] || (eligible(stepped[i]) && filled[i] == launched(
                    stepped[i],
                )));
            }
        } else {
            lemma_fill_parts_shape(parts, from + 1, free);
        }
    }
}

/// The actions that fill free slots are submissions and nothing else.
pub proof fn lemma_fill_actions_are_dispatches(
    specs: Seq<PartSpec>,
    parts: Seq<PartState>,
    from: int,
    free: int,
)
    requires
        0 <= from,
    ensures
        forall|k: int|
            0 <= k < fill_actions(specs, parts, from, free).len() ==> (#[trigger] fill_actions(
                specs,
                parts,
                from,
                free,
            )[k]) is Dispatch,
    decreases parts.len() - from,
{
    if from < parts.len() && free > 0 {
        if eligible(parts[from]) {
            lemma_fill_actions_are_dispatches(specs, parts, from + 1, free - 1);
        } else {
            lemma_fill_actions_are_dispatches(specs, parts, from + 1, free);
        }
    }
}

/// The stop signals are stop signals and nothing else.
pub proof fn lemma_cancel_actions_are_cancels(parts: Seq<PartState>, from: int)
    requires
        0 <= from,
    ensures
        forall|k: int|
            0 <= k < cancel_actions(parts, from).len() ==> (#[trigger] cancel_actions(
                parts,
                from,
            )[k]) is CancelPart,
    decreases parts.len() - from,
{
    if from < parts.len() {
        lemma_cancel_actions_are_cancels(parts, from + 1);
    }
}

/// Every part in flight is sent a stop signal.
pub proof fn lemma_cancel_covers(parts: Seq<PartState>, from: int, index: int)
    requires
        0 <= from <= index < parts.len(),
        parts[index] is InFlight,
    ensures
        cancel_actions(parts, from).contains(Action::CancelPart { part_number: (index + 1) as u32 }),
    decreases parts.len() - from,
{
    let wanted = Action::CancelPart { part_number: (index + 1) as u32 };
    if from == index {
        let rest = cancel_actions(parts, from + 1);
        assert(cancel_actions(parts, from) == seq![wanted] + rest);
        assert((seq![wanted] + rest)[0] == wanted);
    } else {
        lemma_cancel_covers(parts, from + 1, index);
        let rest = cancel_actions(parts, from + 1);
        let at = choose|k: int| 0 <= k < rest.len() && rest[k] == wanted;
        if parts[from] is InFlight {
            let head = seq![Action::CancelPart { part_number: (from + 1) as u32 }];
            assert((head + rest)[at + 1] == wanted);
        }
    }
}

/// What `settle` can answer with: it ends the transfer, submits parts, or
/// asks for the abort, and it asks for the abort exactly when it raises the
/// flag that records the request.
pub proof fn lemma_settle_shape(s: TransferStateView, config: SchedulerConfig)
    ensures
        settle(s, config).0.failure == s.failure,
        settle(s, config).0.results == s.results,
        settle(s, config).0.plan == s.plan,
        s.abort_issued ==> settle(s, config).0.abort_issued,
        settle(s, config).1.contains(Action::AbortSession) <==> !s.abort_issued && settle(
            s,
            config,
        ).0.abort_issued,
        forall|i: int, j: int|
            0 <= i < settle(s, config).1.len() && 0 <= j < settle(s, config).1.len() && settle(
                s,
                config,
            ).1[i] == Action::AbortSession && settle(s, config).1[j] == Action::AbortSession ==> i
                == j,
        winding_down(s.phase) ==> winding_down(settle(s, config).0.phase) && settle(
            s,
            config,
        ).0.parts == s.parts,
        winding_down(s.phase) ==> forall|k: int|
            0 <= k < settle(s, config).1.len() ==> !((#[trigger] settle(s, config).1[k]) is Dispatch),
        s.phase == Phase::Running ==> settle(s, config).0.phase == (if all_succeeded(s.parts) {
            Phase::Completed
        } else {
            Phase::Running
        }),
{
    let free = config.concurrency_limit - in_flight_count(s.parts);
    lemma_fill_actions_are_dispatches(s.plan.parts, s.parts, 0, free);
    let acts = settle(s, config).1;
    if acts.contains(Action::AbortSession) {
        let at = choose|k: int| 0 <= k < acts.len() && acts[k] == Action::AbortSession;
        assert(acts[at] == Action::AbortSession);
    }
    if s.phase == Phase::Aborting && in_flight_count(s.parts) == 0 && !s.abort_issued
        && !s.plan.simple {
        assert(acts[0] == Action::AbortSession);
    }
}

/// A part that fails in a way that may pass, with attempts to spare, is
/// retried: the transfer keeps running, records no failure, and the part
/// waits out its delay.
pub proof fn lemma_transient_failure_is_retried(
    s: TransferStateView,
    config: SchedulerConfig,
    part_number: u32,
    kind: crate::error::ErrorKind,
)
    requires
        consistent(s, config),
        s.phase == Phase::Running,
        names_in_flight(s, part_number),
        kind.retryable(),
        attempt_of(s.parts[part_number - 1]) < config.max_attempts,
    ensures
        ({
            let r = next(s, config, Event::PartFailed { part_number, kind });
            let attempt = attempt_of(s.parts[part_number - 1]);
            &&& r.0.phase == Phase::Running
            &&& r.0.failure is None
            &&& r.0.parts[part_number - 1] == (PartState::Retrying {
                attempts: attempt,
                ready: false,
            })
            &&& r.1.len() >= 1
            &&& r.1[0] == (Action::Backoff {
                part_number,
                delay_ms: backoff_delay(config.backoff_base_ms, config.backoff_max_ms, attempt) as u64,
            })
        }),
{
    let index = part_number - 1;
    let attempt = attempt_of(s.parts[index]);
    let waiting_state = PartState::Retrying { attempts: attempt, ready: false };
    let waiting = TransferStateView { parts: s.parts.update(index, waiting_state), ..s };
    assert(waiting.parts[index] == waiting_state);
    assert(!all_succeeded(waiting.parts));
    let free = config.concurrency_limit - in_flight_count(waiting.parts);
    lemma_fill_parts_shape(waiting.parts, 0, free);
    assert(fill_parts(waiting.parts, 0, free)[index] == waiting.parts[index]);
}

/// Once its delay has passed, a waiting part is ready again: it is either
/// submitted for its next attempt at once or waits for a free slot, and the
/// transfer keeps running.
pub proof fn lemma_elapsed_backoff_readies(
    s: TransferStateView,
    config: SchedulerConfig,
    part_number: u32,
)
    requires
        consistent(s, config),
        names_waiting(s, part_number),
    ensures
        ({
            let r = next(s, config, Event::BackoffElapsed { part_number });
            let attempts = s.parts[part_number - 1]->Retrying_attempts;
            &&& r.0.phase == Phase::Running
            &&& (r.0.parts[part_number - 1] == (PartState::Retrying { attempts, ready: true })
                || r.0.parts[part_number - 1] == (PartState::InFlight {
                attempt: (attempts + 1) as u32,
            }))
        }),
{
    let index = part_number - 1;
    let attempts = s.parts[index]->Retrying_attempts;
    let ready_state = PartState::Retrying { attempts, ready: true };
    let ready = TransferStateView { parts: s.parts.update(index, ready_state), ..s };
    assert(ready.parts[index] == ready_state);
    assert(!all_succeeded(ready.parts));
    let free = config.concurrency_limit - in_flight_count(ready.parts);
    lemma_fill_parts_shape(ready.parts, 0, free);
    let filled = fill_parts(ready.parts, 0, free);
    assert(filled[index] == ready.parts[index] || filled[index] == launched(ready.parts[index]));
}

/// When the last part outstanding succeeds, the transfer completes: however
/// often parts failed before, as long as each succeeded in the end.
pub proof fn lemma_last_success_completes(
    s: TransferStateView,
    config: SchedulerConfig,
    result: crate::types::PartResult,
)
    requires
        consistent(s, config),
        s.phase == Phase::Running,
        names_in_flight(s, result.part_number),
        forall|i: int|
            0 <= i < s.parts.len() && i != result.part_number - 1 ==> (
            #[trigger] s.parts[i]) is Succeeded,
    ensures
        ({
            let r = next(s, config, Event::PartSucceeded { result });
            &&& r.0.phase == Phase::Completed
            &&& r.0.failure is None
            &&& r.0.results[result.part_number - 1] == Some(result)
            &&& r.1 == seq![
                Action::Progress {
                    part_number: result.part_number,
                    bytes: result.bytes_transferred,
                },
                Action::Finish,
            ]
        }),
{
    let index = result.part_number - 1;
    let updated = s.parts.update(index, PartState::Succeeded);
    assert forall|i: int| 0 <= i < updated.len() implies (#[trigger] updated[i]) is Succeeded by {
        if i != index {
            assert(s.parts[i] is Succeeded);
        }
    }
    let r = next(s, config, Event::PartSucceeded { result });
    assert(r.1 =~= seq![
        Action::Progress { part_number: result.part_number, bytes: result.bytes_transferred },
        Action::Finish,
    ]);
}

/// A failure that ends a part ends the transfer: the failure is recorded
/// with the part's number and its cause, every other part in flight is told
/// to stop, and nothing is submitted any more.
pub proof fn lemma_fatal_failure_winds_down(
    s: TransferStateView,
    config: SchedulerConfig,
    part_number: u32,
    kind: crate::error::ErrorKind,
)
    requires
        consistent(s, config),
        s.phase == Phase::Running,
        names_in_flight(s, part_number),
        !(kind.retryable() && attempt_of(s.parts[part_number - 1]) < config.max_attempts),
    ensures
        ({
            let r = next(s, config, Event::PartFailed { part_number, kind });
            &&& winding_down(r.0.phase)
            &&& r.0.phase != Phase::Aborted
            &&& r.0.failure == Some(TransferError { kind, part_number: Some(part_number) })
            &&& r.0.parts[part_number - 1] == PartState::Failed
            &&& forall|other: int|
                1 <= other <= s.parts.len() && other != part_number && s.parts[other - 1] is InFlight
                    ==> #[trigger] r.1.contains(Action::CancelPart { part_number: other as u32 })
            &&& forall|k: int| 0 <= k < r.1.len() ==> !((#[trigger] r.1[k]) is Dispatch)
            &&& !r.1.contains(Action::Finish) || r.0.phase == Phase::Failed
        }),
{
    let index = part_number - 1;
    let error = TransferError { kind, part_number: Some(part_number) };
    let stopped = TransferStateView { parts: s.parts.update(index, PartState::Failed), ..s };
    let winding = TransferStateView { phase: Phase::Aborting, failure: Some(error), ..stopped };
    let r = begin_abort(stopped, config, error);
    let cancels = cancel_actions(stopped.parts, 0);
    let settled = settle(winding, config);
    lemma_settle_shape(winding, config);
    lemma_cancel_actions_are_cancels(stopped.parts, 0);
    assert(r.1 == cancels + settled.1);
    assert forall|other: int|
        1 <= other <= s.parts.len() && other != part_number && s.parts[other - 1] is InFlight implies #[trigger] r.1.contains(
        Action::CancelPart { part_number: other as u32 },
    ) by {
        assert(stopped.parts[other - 1] == s.parts[other - 1]);
        lemma_cancel_covers(stopped.parts, 0, other - 1);
        let wanted = Action::CancelPart { part_number: other as u32 };
        let at = choose|k: int| 0 <= k < cancels.len() && cancels[k] == wanted;
        assert(r.1[at] == wanted);
    }
    assert forall|k: int| 0 <= k < r.1.len() implies !((#[trigger] r.1[k]) is Dispatch) by {
        if k < cancels.len() {
            assert(r.1[k] == cancels[k]);
        } else {
            assert(r.1[k] == settled.1[k - cancels.len()]);
        }
    }
    if r.1.contains(Action::Finish) {
        let at = choose|k: int| 0 <= k < r.1.len() && r.1[k] == Action::Finish;
        if at < cancels.len() {
            assert(r.1[at] == cancels[at]);
        } else {
            assert(r.1[at] == settled.1[at - cancels.len()]);
        }
    }
}

/// An action that is neither an abort request nor a submission, put in front
/// of a list, adds no abort request and no submission to it.
proof fn lemma_prefixed(head: Action, rest: Seq<Action>)
    requires
        head != Action::AbortSession,
        !(head is Dispatch),
    ensures
        (seq![head] + rest).contains(Action::AbortSession) <==> rest.contains(Action::AbortSession),
        (forall|i: int, j: int|
            0 <= i < rest.len() && 0 <= j < rest.len() && rest[i] == Action::AbortSession && rest[j]
                == Action::AbortSession ==> i == j) ==> (forall|i: int, j: int|
            0 <= i < (seq![head] + rest).len() && 0 <= j < (seq![head] + rest).len() && (seq![head]
                + rest)[i] == Action::AbortSession && (seq![head] + rest)[j]
                == Action::AbortSession ==> i == j),
        (forall|k: int| 0 <= k < rest.len() ==> !((#[trigger] rest[k]) is Dispatch)) ==> (forall|
            k: int,
        |
            0 <= k < (seq![head] + rest).len() ==> !((#[trigger] (seq![head] + rest)[k]) is Dispatch)),
{
    let all = seq![head] + rest;
    assert forall|k: int| 1 <= k < all.len() implies #[trigger] all[k] == rest[k - 1] by {}
    if all.contains(Action::AbortSession) {
        let at = choose|k: int| 0 <= k < all.len() && all[k] == Action::AbortSession;
        assert(rest[at - 1] == Action::AbortSession);
    }
    if rest.contains(Action::AbortSession) {
        let at = choose|k: int| 0 <= k < rest.len() && rest[k] == Action::AbortSession;
        assert(all[at + 1] == Action::AbortSession);
    }
    if forall|i: int, j: int|
        0 <= i < rest.len() && 0 <= j < rest.len() && rest[i] == Action::AbortSession && rest[j]
            == Action::AbortSession ==> i == j {
        assert forall|i: int, j: int|
            0 <= i < all.len() && 0 <= j < all.len() && all[i] == Action::AbortSession && all[j]
                == Action::AbortSession implies i == j by {
            assert(rest[i - 1] == Action::AbortSession);
            assert(rest[j - 1] == Action::AbortSession);
        }
    }
    if forall|k: int| 0 <= k < rest.len() ==> !((#[trigger] rest[k]) is Dispatch) {
        assert forall|k: int| 0 <= k < all.len() implies !((#[trigger] all[k]) is Dispatch) by {
            if k >= 1 {
                assert(!(rest[k - 1] is Dispatch));
            }
        }
    }
}

/// What `begin_abort` can answer with: stop signals, then what `settle`
/// answers for the transfer as it winds down.
pub proof fn lemma_begin_abort_shape(
    s: TransferStateView,
    config: SchedulerConfig,
    error: TransferError,
)
    ensures
        winding_down(begin_abort(s, config, error).0.phase),
        begin_abort(s, config, error).0.failure == Some(error),
        begin_abort(s, config, error).0.parts == s.parts,
        s.abort_issued ==> begin_abort(s, config, error).0.abort_issued,
        begin_abort(s, config, error).1.contains(Action::AbortSession) <==> !s.abort_issued
            && begin_abort(s, config, error).0.abort_issued,
        forall|i: int, j: int|
            0 <= i < begin_abort(s, config, error).1.len() && 0 <= j < begin_abort(
                s,
                config,
                error,
            ).1.len() && begin_abort(s, config, error).1[i] == Action::AbortSession && begin_abort(
                s,
                config,
                error,
            ).1[j] == Action::AbortSession ==> i == j,
        forall|k: int|
            0 <= k < begin_abort(s, config, error).1.len() ==> !((#[trigger] begin_abort(
                s,
                config,
                error,
            ).1[k]) is Dispatch),
{
    let winding = TransferStateView { phase: Phase::Aborting, failure: Some(error), ..s };
    let settled = settle(winding, config);
    let cancels = cancel_actions(s.parts, 0);
    let acts = begin_abort(s, config, error).1;
    lemma_settle_shape(winding, config);
    lemma_cancel_actions_are_cancels(s.parts, 0);
    assert(acts == cancels + settled.1);
    assert forall|k: int| 0 <= k < acts.len() implies (if k < cancels.len() {
        (#[trigger] acts[k]) is CancelPart
    } else {
        acts[k] == settled.1[k - cancels.len()]
    }) by {
        if k < cancels.len() {
            assert(acts[k] == cancels[k]);
        }
    }
    if acts.contains(Action::AbortSession) {
        let at = choose|k: int| 0 <= k < acts.len() && acts[k] == Action::AbortSession;
        assert(acts[at] == Action::AbortSession);
        assert(settled.1[at - cancels.len()] == Action::AbortSession);
    }
    if settled.1.contains(Action::AbortSession) {
        let at = choose|k: int| 0 <= k < settled.1.len() && settled.1[k] == Action::AbortSession;
        assert(acts[at + cancels.len()] == Action::AbortSession);
    }
    assert forall|i: int, j: int|
        0 <= i < acts.len() && 0 <= j < acts.len() && acts[i] == Action::AbortSession && acts[j]
            == Action::AbortSession implies i == j by {
        assert(settled.1[i - cancels.len()] == Action::AbortSession);
        assert(settled.1[j - cancels.len()] == Action::AbortSession);
    }
}

/// The remote session is aborted at most once: whatever the event, the abort
/// is asked for exactly when the flag that records the request is raised,
/// never twice in one answer, and the flag is never lowered again.
pub proof fn lemma_abort_requested_once(s: TransferStateView, config: SchedulerConfig, event: Event)
    ensures
        s.abort_issued ==> next(s, config, event).0.abort_issued,
        next(s, config, event).1.contains(Action::AbortSession) <==> !s.abort_issued && next(
            s,
            config,
            event,
        ).0.abort_issued,
        forall|i: int, j: int|
            0 <= i < next(s, config, event).1.len() && 0 <= j < next(s, config, event).1.len()
                && next(s, config, event).1[i] == Action::AbortSession && next(
                s,
                config,
                event,
            ).1[j] == Action::AbortSession ==> i == j,
{
    let r = next(s, config, event);
    match event {
        Event::Start => {
            lemma_settle_shape(TransferStateView { phase: Phase::Running, ..s }, config);
        },
        Event::PartSucceeded { result } => {
            if names_in_flight(s, result.part_number) {
                let index = result.part_number - 1;
                let recorded = TransferStateView {
                    parts: s.parts.update(index, PartState::Succeeded),
                    results: s.results.update(index, Some(result)),
                    ..s
                };
                lemma_settle_shape(recorded, config);
                lemma_prefixed(
                    Action::Progress {
                        part_number: result.part_number,
                        bytes: result.bytes_transferred,
                    },
                    settle(recorded, config).1,
                );
            }
        },
        Event::PartFailed { part_number, kind } => {
            if names_in_flight(s, part_number) {
                let index = part_number - 1;
                let attempt = attempt_of(s.parts[index]);
                if s.phase == Phase::Running && kind.retryable() && attempt < config.max_attempts {
                    let waiting = TransferStateView {
                        parts: s.parts.update(
                            index,
                            PartState::Retrying { attempts: attempt, ready: false },
                        ),
                        ..s
                    };
                    let settled = settle(waiting, config);
                    lemma_settle_shape(waiting, config);
                    lemma_prefixed(
                        Action::Backoff {
                            part_number,
                            delay_ms: backoff_delay(
                                config.backoff_base_ms,
                                config.backoff_max_ms,
                                attempt,
                            ) as u64,
                        },
                        settled.1,
                    );
                } else {
                    let stopped = TransferStateView {
                        parts: s.parts.update(index, PartState::Failed),
                        ..s
                    };
                    if s.phase == Phase::Running {
                        lemma_begin_abort_shape(
                            stopped,
                            config,
                            TransferError { kind, part_number: Some(part_number) },
                        );
                    } else {
                        lemma_settle_shape(stopped, config);
                    }
                }
            }
        },
        Event::BackoffElapsed { part_number } => {
            if names_waiting(s, part_number) {
                let index = part_number - 1;
                let attempts = s.parts[index]->Retrying_attempts;
                lemma_settle_shape(
                    TransferStateView {
                        parts: s.parts.update(index, PartState::Retrying { attempts, ready: true }),
                        ..s
                    },
                    config,
                );
            }
        },
        Event::CancelRequested => {
            let error = TransferError {
                kind: crate::error::ErrorKind::Cancelled,
                part_number: None,
            };
            if s.phase == Phase::Planning {
                assert(r.1[0] == Action::Finish);
            } else if s.phase == Phase::Running {
                lemma_begin_abort_shape(TransferStateView { cancelled: true, ..s }, config, error);
            }
        },
        Event::SessionAborted => {
            if s.phase == Phase::Aborting && s.abort_issued {
                assert(r.1[0] == Action::Finish);
            }
        },
    }
}

/// A transfer that has recorded a failure never completes: whatever the
/// event, it stays on the way down, keeps the failure it recorded, and
/// submits nothing.
pub proof fn lemma_failure_is_final(s: TransferStateView, config: SchedulerConfig, event: Event)
    requires
        winding_down(s.phase),
    ensures
        winding_down(next(s, config, event).0.phase),
        next(s, config, event).0.phase != Phase::Completed,
        next(s, config, event).0.failure == s.failure,
        forall|k: int|
            0 <= k < next(s, config, event).1.len() ==> !((#[trigger] next(
                s,
                config,
                event,
            ).1[k]) is Dispatch),
{
    match event {
        Event::PartSucceeded { result } => {
            if names_in_flight(s, result.part_number) {
                let index = result.part_number - 1;
                let recorded = TransferStateView {
                    parts: s.parts.update(index, PartState::Succeeded),
                    results: s.results.update(index, Some(result)),
                    ..s
                };
                lemma_settle_shape(recorded, config);
                lemma_prefixed(
                    Action::Progress {
                        part_number: result.part_number,
                        bytes: result.bytes_transferred,
                    },
                    settle(recorded, config).1,
                );
            }
        },
        Event::PartFailed { part_number, kind } => {
            if names_in_flight(s, part_number) {
                lemma_settle_shape(
                    TransferStateView {
                        parts: s.parts.update(part_number - 1, PartState::Failed),
                        ..s
                    },
                    config,
                );
            }
        },
        _ => {},
    }
}

/// A transfer ends as aborted only after the abort was asked for with no
/// part left in flight, and completes only if it was never asked for.
pub proof fn lemma_terminal_phases(s: TransferStateView, config: SchedulerConfig)
    requires
        consistent(s, config),
    ensures
        s.phase == Phase::Aborted ==> s.abort_issued && in_flight_count(s.parts) == 0
            && s.failure is Some,
        s.phase == Phase::Completed ==> !s.abort_issued && s.failure is None && all_succeeded(
            s.parts,
        ),
        s.abort_issued ==> s.phase == Phase::Aborting || s.phase == Phase::Aborted,
{
}

/// A part in flight counts.
pub proof fn lemma_in_flight_witness(parts: Seq<PartState>, index: int)
    requires
        0 <= index < parts.len(),
        parts[index] is InFlight,
    ensures
        in_flight_count(parts) >= 1,
    decreases parts.len(),
{
    if index < parts.len() - 1 {
        lemma_in_flight_witness(parts.drop_last(), index);
    }
}

/// Filling slots never puts more parts in flight than there are free slots,
/// never tries a part more often than allowed, and touches no part that was
/// moved.
pub proof fn lemma_fill_keeps_coherence(
    parts: Seq<PartState>,
    from: int,
    free: int,
    config: SchedulerConfig,
)
    requires
        0 <= from,
        config.valid(),
        forall|i: int| 0 <= i < parts.len() ==> attempts_in_range(#[trigger] parts[i], config),
    ensures
        fill_parts(parts, from, free).len() == parts.len(),
        in_flight_count(parts) <= in_flight_count(fill_parts(parts, from, free)),
        in_flight_count(fill_parts(parts, from, free)) <= in_flight_count(parts) + (if free > 0 {
            free
        } else {
            0
        }),
        forall|i: int|
            0 <= i < parts.len() ==> attempts_in_range(
                #[trigger] fill_parts(parts, from, free)[i],
                config,
            ),
        forall|i: int|
            0 <= i < parts.len() ==> ((#[trigger] fill_parts(parts, from, free)[i]) is Succeeded
                <==> parts[i] is Succeeded),
    decreases parts.len() - from,
{
    if from < parts.len() && free > 0 {
        if eligible(parts[from]) {
            let started = launched(parts[from]);
            let stepped = parts.update(from, started);
            lemma_in_flight_update(parts, from, started);
            assert(attempts_in_range(parts[from], config));
            assert(attempts_in_range(started, config));
            assert forall|i: int| 0 <= i < stepped.len() implies attempts_in_range(
                #[trigger] stepped[i],
                config,
            ) by {
                if i != from {
                    assert(stepped[i] == parts[i]);
                }
            }
            lemma_fill_keeps_coherence(stepped, from + 1, free - 1, config);
            let filled = fill_parts(stepped, from + 1, free - 1);
            assert forall|i: int| 0 <= i < parts.len() implies ((#[trigger] filled[i]) is Succeeded
                <==> parts[i] is Succeeded) by {
                assert(filled[i] is Succeeded <==> stepped[i] is Succeeded);
            }
        } else {
            lemma_fill_keeps_coherence(parts, from + 1, free, config);
        }
    }
}

/// Settling keeps a state consistent.
pub proof fn lemma_settle_keeps_consistency(s: TransferStateView, config: SchedulerConfig)
    requires
        coherent(s, config),
        settle_ready(s),
    ensures
        consistent(settle(s, config).0, config),
{
    if s.phase == Phase::Running && !all_succeeded(s.parts) {
        let free = config.concurrency_limit - in_flight_count(s.parts);
        lemma_fill_keeps_coherence(s.parts, 0, free, config);
        let filled = fill_parts(s.parts, 0, free);
        assert forall|i: int| 0 <= i < filled.len() implies ((#[trigger] filled[i]) is Succeeded
            <==> s.results[i] is Some) by {
            assert(filled[i] is Succeeded <==> s.parts[i] is Succeeded);
        }
    }
}

/// Starting to wind down keeps a state consistent.
pub proof fn lemma_begin_abort_keeps_consistency(
    s: TransferStateView,
    config: SchedulerConfig,
    error: TransferError,
)
    requires
        coherent(s, config),
        !s.abort_issued,
    ensures
        consistent(begin_abort(s, config, error).0, config),
{
    lemma_settle_keeps_consistency(
        TransferStateView { phase: Phase::Aborting, failure: Some(error), ..s },
        config,
    );
}

/// Replacing the state of one part that is in flight by a state that is not
/// keeps what holds of a transfer's state, as long as the new state has its
/// attempts in range and a result is recorded exactly where the part was
/// moved.
proof fn lemma_landing_keeps_coherence(
    s: TransferStateView,
    config: SchedulerConfig,
    index: int,
    state: PartState,
    results: Seq<Option<crate::types::PartResult>>,
)
    requires
        coherent(s, config),
        0 <= index < s.parts.len(),
        s.parts[index] is InFlight,
        !(state is InFlight),
        attempts_in_range(state, config),
        state is Succeeded ==> results == s.results.update(index, results[index])
            && (results[index] matches Some(r) && r.part_number == index + 1),
        !(state is Succeeded) ==> results == s.results,
    ensures
        coherent(TransferStateView { parts: s.parts.update(index, state), results, ..s }, config),
        in_flight_count(s.parts.update(index, state)) == in_flight_count(s.parts) - 1,
{
    let parts = s.parts.update(index, state);
    lemma_in_flight_update(s.parts, index, state);
    assert forall|i: int| 0 <= i < parts.len() implies ((#[trigger] parts[i]) is Succeeded
        <==> results[i] is Some) by {
        if i != index {
            assert(parts[i] == s.parts[i]);
            assert(s.parts[i] is Succeeded <==> s.results[i] is Some);
        } else {
            assert(s.parts[i] is Succeeded <==> s.results[i] is Some);
        }
    }
    assert forall|i: int| 0 <= i < results.len() implies ((#[trigger] results[i]) matches Some(r)
        ==> r.part_number == i + 1) by {
        if i != index {
            assert(s.results[i] matches Some(r) ==> r.part_number == i + 1);
        } else if !(state is Succeeded) {
            assert(s.results[i] matches Some(r) ==> r.part_number == i + 1);
        }
    }
    assert forall|i: int| 0 <= i < parts.len() implies attempts_in_range(
        #[trigger] parts[i],
        config,
    ) by {
        if i != index {
            assert(parts[i] == s.parts[i]);
        }
    }
}

/// Every step of the scheduler keeps its state consistent: whatever the
/// event, the parts in flight stay within `concurrency_limit`, results stay
/// recorded under their own part numbers for exactly the parts that were
/// moved, attempts stay within `max_attempts`, and the phase stays in step
/// with the rest.
pub proof fn lemma_next_keeps_consistency(s: TransferStateView, config: SchedulerConfig, event: Event)
    requires
        consistent(s, config),
    ensures
        consistent(next(s, config, event).0, config),
        in_flight_count(next(s, config, event).0.parts) <= config.concurrency_limit,
{
    match event {
        Event::Start => {
            if s.phase == Phase::Planning {
                lemma_settle_keeps_consistency(
                    TransferStateView { phase: Phase::Running, ..s },
                    config,
                );
            }
        },
        Event::PartSucceeded { result } => {
            if names_in_flight(s, result.part_number) {
                let index = result.part_number - 1;
                lemma_in_flight_witness(s.parts, index);
                let results = s.results.update(index, Some(result));
                lemma_landing_keeps_coherence(s, config, index, PartState::Succeeded, results);
                lemma_settle_keeps_consistency(
                    TransferStateView {
                        parts: s.parts.update(index, PartState::Succeeded),
                        results,
                        ..s
                    },
                    config,
                );
            }
        },
        Event::PartFailed { part_number, kind } => {
            if names_in_flight(s, part_number) {
                let index = part_number - 1;
                let attempt = attempt_of(s.parts[index]);
                lemma_in_flight_witness(s.parts, index);
                assert(attempts_in_range(s.parts[index], config));
                if s.phase == Phase::Running && kind.retryable() && attempt < config.max_attempts {
                    let waiting = PartState::Retrying { attempts: attempt, ready: false };
                    lemma_landing_keeps_coherence(s, config, index, waiting, s.results);
                    lemma_settle_keeps_consistency(
                        TransferStateView { parts: s.parts.update(index, waiting), ..s },
                        config,
                    );
                } else {
                    lemma_landing_keeps_coherence(s, config, index, PartState::Failed, s.results);
                    let stopped = TransferStateView {
                        parts: s.parts.update(index, PartState::Failed),
                        ..s
                    };
                    if s.phase == Phase::Running {
                        lemma_begin_abort_keeps_consistency(
                            stopped,
                            config,
                            TransferError { kind, part_number: Some(part_number) },
                        );
                    } else {
                        lemma_settle_keeps_consistency(stopped, config);
                    }
                }
            }
        },
        Event::BackoffElapsed { part_number } => {
            if names_waiting(s, part_number) {
                let index = part_number - 1;
                let attempts = s.parts[index]->Retrying_attempts;
                let ready = PartState::Retrying { attempts, ready: true };
                let parts = s.parts.update(index, ready);
                lemma_in_flight_update(s.parts, index, ready);
                assert(attempts_in_range(s.parts[index], config));
                assert forall|i: int| 0 <= i < parts.len() implies attempts_in_range(
                    #[trigger] parts[i],
                    config,
                ) by {
                    if i != index {
                        assert(parts[i] == s.parts[i]);
                    }
                }
                assert forall|i: int| 0 <= i < parts.len() implies ((#[trigger] parts[i]) is Succeeded
                    <==> s.results[i] is Some) by {
                    assert(s.parts[i] is Succeeded <==> s.results[i] is Some);
                }
                lemma_settle_keeps_consistency(TransferStateView { parts, ..s }, config);
            }
        },
        Event::CancelRequested => {
            let error = TransferError {
                kind: crate::error::ErrorKind::Cancelled,
                part_number: None,
            };
            if s.phase == Phase::Planning {
                lemma_counts_of_idle(s.parts);
            } else if s.phase == Phase::Running {
                lemma_begin_abort_keeps_consistency(
                    TransferStateView { cancelled: true, ..s },
                    config,
                    error,
                );
            }
        },
        Event::SessionAborted => {},
    }
}

/// A running transfer starts to wind down only for a reason: the caller
/// cancelled, or a part in flight failed in a way that cannot be retried or
/// with no attempt to spare. Failures that may pass never end it.
pub proof fn lemma_only_fatal_events_abort(
    s: TransferStateView,
    config: SchedulerConfig,
    event: Event,
)
    requires
        consistent(s, config),
        s.phase == Phase::Running,
        winding_down(next(s, config, event).0.phase),
    ensures
        event is CancelRequested || (event matches Event::PartFailed { part_number, kind }
            && names_in_flight(s, part_number) && !(kind.retryable() && attempt_of(
            s.parts[part_number - 1],
        ) < config.max_attempts)),
{
    match event {
        Event::PartSucceeded { result } => {
            if names_in_flight(s, result.part_number) {
                let index = result.part_number - 1;
                lemma_settle_shape(
                    TransferStateView {
                        parts: s.parts.update(index, PartState::Succeeded),
                        results: s.results.update(index, Some(result)),
                        ..s
                    },
                    config,
                );
            }
        },
        Event::PartFailed { part_number, kind } => {
            if names_in_flight(s, part_number) {
                let index = part_number - 1;
                let attempt = attempt_of(s.parts[index]);
                if kind.retryable() && attempt < config.max_attempts {
                    lemma_settle_shape(
                        TransferStateView {
                            parts: s.parts.update(
                                index,
                                PartState::Retrying { attempts: attempt, ready: false },
                            ),
                            ..s
                        },
                        config,
                    );
                }
            }
        },
        Event::BackoffElapsed { part_number } => {
            if names_waiting(s, part_number) {
                let index = part_number - 1;
                let attempts = s.parts[index]->Retrying_attempts;
                lemma_settle_shape(
                    TransferStateView {
                        parts: s.parts.update(index, PartState::Retrying { attempts, ready: true }),
                        ..s
                    },
                    config,
                );
            }
        },
        _ => {},
    }
}

/// The state of a transfer of one part after the part has failed `rounds`
/// times in the way `kind` and its delay has passed each time.
pub open spec fn after_retries(
    s: TransferStateView,
    config: SchedulerConfig,
    kind: crate::error::ErrorKind,
    rounds: nat,
) -> TransferStateView
    decreases rounds,
{
    if rounds == 0 {
        s
    } else {
        let before = after_retries(s, config, kind, (rounds - 1) as nat);
        let failed = next(before, config, Event::PartFailed { part_number: 1, kind }).0;
        next(failed, config, Event::BackoffElapsed { part_number: 1 }).0
    }
}

/// A part that fails in a way that may pass, fewer times than it has
/// attempts, and then succeeds, completes its transfer: for a transfer of
/// one part, after `rounds` such failures, each followed by its delay, the
/// part is in flight again for its next attempt, the transfer is running
/// with no more than one part in flight, and the part's success completes
/// it.
pub proof fn lemma_retried_part_completes(
    s: TransferStateView,
    config: SchedulerConfig,
    kind: crate::error::ErrorKind,
    rounds: nat,
    result: crate::types::PartResult,
)
    requires
        consistent(s, config),
        s.phase == Phase::Running,
        s.parts.len() == 1,
        s.parts[0] is InFlight,
        kind.retryable(),
        attempt_of(s.parts[0]) + rounds <= config.max_attempts,
        result.part_number == 1,
    ensures
        ({
            let t = after_retries(s, config, kind, rounds);
            &&& consistent(t, config)
            &&& t.phase == Phase::Running
            &&& t.failure is None
            &&& t.parts =~= seq![
                PartState::InFlight { attempt: (attempt_of(s.parts[0]) + rounds) as u32 },
            ]
            &&& in_flight_count(t.parts) == 1
            &&& next(t, config, Event::PartSucceeded { result }).0.phase == Phase::Completed
            &&& next(t, config, Event::PartSucceeded { result }).0.failure is None
        }),
    decreases rounds,
{
    let first = attempt_of(s.parts[0]);
    if rounds == 0 {
        assert(s.parts =~= seq![PartState::InFlight { attempt: first }]);
        lemma_in_flight_witness(s.parts, 0);
        lemma_single(s.parts);
    } else {
        lemma_retried_part_completes(s, config, kind, (rounds - 1) as nat, result);
        let before = after_retries(s, config, kind, (rounds - 1) as nat);
        let attempt = (first + rounds - 1) as u32;
        let fail = Event::PartFailed { part_number: 1, kind };
        let elapse = Event::BackoffElapsed { part_number: 1 };
        lemma_next_keeps_consistency(before, config, fail);
        let waiting = before.parts.update(
            0,
            PartState::Retrying { attempts: attempt, ready: false },
        );
        lemma_single(waiting);
        assert(!all_succeeded(waiting)) by {
            assert(!(waiting[0] is Succeeded));
        }
        assert(fill_parts(waiting, 0, config.concurrency_limit - 0) =~= waiting) by {
            assert(fill_parts(waiting, 1, config.concurrency_limit - 0) == waiting);
        }
        let failed = next(before, config, fail).0;
        assert(failed.parts =~= waiting);
        assert(failed.phase == Phase::Running);
        lemma_next_keeps_consistency(failed, config, elapse);
        let ready = failed.parts.update(0, PartState::Retrying { attempts: attempt, ready: true });
        lemma_single(ready);
        assert(!all_succeeded(ready)) by {
            assert(!(ready[0] is Succeeded));
        }
        let again = ready.update(0, PartState::InFlight { attempt: (attempt + 1) as u32 });
        assert(attempts_in_range(ready[0], config)) by {
            assert(attempts_in_range(failed.parts[0], config));
        }
        assert(fill_parts(ready, 0, config.concurrency_limit - 0) =~= again) by {
            assert(launched(ready[0]) == PartState::InFlight { attempt: (attempt + 1) as u32 });
            assert(fill_parts(again, 1, config.concurrency_limit - 1) == again);
        }
        let t = next(failed, config, elapse).0;
        assert(t.parts =~= again);
        lemma_single(t.parts);
    }
    let t = after_retries(s, config, kind, rounds);
    let moved = t.parts.update(0, PartState::Succeeded);
    assert forall|i: int| 0 <= i < moved.len() implies (#[trigger] moved[i]) is Succeeded by {}
}

/// The counts of a single part.
proof fn lemma_single(parts: Seq<PartState>)
    requires
        parts.len() == 1,
    ensures
        in_flight_count(parts) == (if parts[0] is InFlight {
            1nat
        } else {
            0nat
        }),
{
    assert(parts.drop_last().len() == 0);
    assert(in_flight_count(parts.drop_last()) == 0);
}

/// The state a transfer is in after a run of events.
pub open spec fn state_after(s: TransferStateView, config: SchedulerConfig, events: Seq<Event>)
    -> TransferStateView
    decreases events.len(),
{
    if events.len() == 0 {
        s
    } else {
        next(state_after(s, config, events.drop_last()), config, events.last()).0
    }
}

/// How often the actions ask for the abort of the session.
pub open spec fn abort_requests(actions: Seq<Action>) -> nat
    decreases actions.len(),
{
    if actions.len() == 0 {
        0
    } else {
        abort_requests(actions.drop_last()) + if actions.last() == Action::AbortSession {
            1nat
        } else {
            0nat
        }
    }
}

/// How often the abort of the session is asked for along a run of events.
pub open spec fn aborts_along(s: TransferStateView, config: SchedulerConfig, events: Seq<Event>)
    -> nat
    decreases events.len(),
{
    if events.len() == 0 {
        0
    } else {
        aborts_along(s, config, events.drop_last()) + abort_requests(
            next(state_after(s, config, events.drop_last()), config, events.last()).1,
        )
    }
}

/// Actions that hold no abort request ask for none; actions that hold one at
/// a single place ask for one.
proof fn lemma_abort_requests(actions: Seq<Action>)
    requires
        forall|i: int, j: int|
            0 <= i < actions.len() && 0 <= j < actions.len() && actions[i] == Action::AbortSession
                && actions[j] == Action::AbortSession ==> i == j,
    ensures
        abort_requests(actions) == (if actions.contains(Action::AbortSession) {
            1nat
        } else {
            0nat
        }),
    decreases actions.len(),
{
    if actions.len() > 0 {
        let front = actions.drop_last();
        let last = actions.len() - 1;
        assert forall|i: int, j: int|
            0 <= i < front.len() && 0 <= j < front.len() && front[i] == Action::AbortSession
                && front[j] == Action::AbortSession implies i == j by {
            assert(actions[i] == front[i] && actions[j] == front[j]);
        }
        lemma_abort_requests(front);
        if front.contains(Action::AbortSession) {
            let at = choose|k: int| 0 <= k < front.len() && front[k] == Action::AbortSession;
            assert(actions[at] == Action::AbortSession);
            assert(actions[last] != Action::AbortSession);
        } else if actions[last] == Action::AbortSession {
        } else if actions.contains(Action::AbortSession) {
            let at = choose|k: int| 0 <= k < actions.len() && actions[k] == Action::AbortSession;
            assert(front[at] == Action::AbortSession);
        }
    }
}

/// In the life of a transfer the remote session is aborted at most once:
/// along any run of events from a state in which no abort was asked for, the
/// abort is asked for once if the run leaves the flag raised and never
/// otherwise. So a transfer that ends aborted has asked for it exactly once,
/// and one that completes has never asked for it.
pub proof fn lemma_session_aborted_exactly_once(
    s: TransferStateView,
    config: SchedulerConfig,
    events: Seq<Event>,
)
    requires
        consistent(s, config),
        !s.abort_issued,
    ensures
        consistent(state_after(s, config, events), config),
        aborts_along(s, config, events) == (if state_after(s, config, events).abort_issued {
            1nat
        } else {
            0nat
        }),
        state_after(s, config, events).phase == Phase::Aborted ==> aborts_along(s, config, events)
            == 1,
        state_after(s, config, events).phase == Phase::Completed ==> aborts_along(s, config, events)
            == 0,
    decreases events.len(),
{
    if events.len() > 0 {
        let front = events.drop_last();
        lemma_session_aborted_exactly_once(s, config, front);
        let before = state_after(s, config, front);
        lemma_next_keeps_consistency(before, config, events.last());
        lemma_abort_requested_once(before, config, events.last());
        lemma_abort_requests(next(before, config, events.last()).1);
    }
}

/// A transfer that failed stays failed: along any run of events from a state
/// that is winding down, the transfer never completes and keeps the failure
/// it recorded.
pub proof fn lemma_failed_transfer_never_completes(
    s: TransferStateView,
    config: SchedulerConfig,
    events: Seq<Event>,
)
    requires
        winding_down(s.phase),
    ensures
        winding_down(state_after(s, config, events).phase),
        state_after(s, config, events).phase != Phase::Completed,
        state_after(s, config, events).failure == s.failure,
    decreases events.len(),
{
    if events.len() > 0 {
        lemma_failed_transfer_never_completes(s, config, events.drop_last());
        lemma_failure_is_final(
            state_after(s, config, events.drop_last()),
            config,
            events.last(),
        );
    }
}

/// However events come in, no more than `concurrency_limit` parts are ever
/// in flight.
pub proof fn lemma_concurrency_is_bounded(
    s: TransferStateView,
    config: SchedulerConfig,
    events: Seq<Event>,
)
    requires
        consistent(s, config),
    ensures
        consistent(state_after(s, config, events), config),
        in_flight_count(state_after(s, config, events).parts) <= config.concurrency_limit,
    decreases events.len(),
{
    if events.len() > 0 {
        lemma_concurrency_is_bounded(s, config, events.drop_last());
        lemma_next_keeps_consistency(
            state_after(s, config, events.drop_last()),
            config,
            events.last(),
        );
    }
}

} // verus!
