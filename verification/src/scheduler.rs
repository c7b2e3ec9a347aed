//! The part scheduler: which parts run, which are retried, and how a
//! transfer is wound down.
//!
//! The scheduler is a state machine. The driver feeds it events (a part
//! finished, a timer fired, the caller cancelled) and carries out the actions
//! it answers with (start a part, sleep, cancel, abort the session). The
//! scheduler itself never waits and never performs I/O.

use vstd::prelude::*;
use crate::backoff::{backoff_delay, backoff_delay_ms};
use crate::error::{ErrorKind, TransferError};
use crate::planner::{PartPlan, PartPlanView, PartSpec, is_partition};
use crate::types::PartResult;

verus! {

/// Where one part stands.
#[derive(Clone, Copy, Debug, PartialEq, Eq, Structural)]
pub enum PartState {
    /// Not yet submitted.
    Pending,
    /// Handed to the transport; `attempt` counts from 1.
    InFlight { attempt: u32 },
    /// Failed `attempts` times; waits out its delay until `ready`.
    Retrying { attempts: u32, ready: bool },
    /// Moved; its result is recorded.
    Succeeded,
    /// Given up, or stopped while the transfer was winding down.
    Failed,
}

/// Where the transfer as a whole stands.
#[derive(Clone, Copy, Debug, PartialEq, Eq, Structural)]
pub enum Phase {
    /// Created, not started.
    Planning,
    /// Parts are being moved.
    Running,
    /// Every part was moved.
    Completed,
    /// A failure or a cancellation was seen; parts in flight are being stopped.
    Aborting,
    /// The remote session was aborted after a failure or a cancellation.
    Aborted,
    /// Ended in failure with no remote session to abort.
    Failed,
}

/// The scheduler's limits.
#[derive(Clone, Copy, Debug, PartialEq, Eq, Structural)]
pub struct SchedulerConfig {
    /// How many parts may be in flight at once.
    pub concurrency_limit: u32,
    /// How many times one part may be submitted.
    pub max_attempts: u32,
    /// The delay after a part's first failure, in milliseconds.
    pub backoff_base_ms: u64,
    /// The longest delay between two attempts, in milliseconds.
    pub backoff_max_ms: u64,
}

impl SchedulerConfig {
    /// At least one part may run, and each part may be tried at least once.
    pub open spec fn valid(&self) -> bool {
        self.concurrency_limit >= 1 && self.max_attempts >= 1
    }

    /// Checks the limits.
    pub fn is_valid(&self) -> (r: bool)
        ensures
            r == self.valid(),
    {
        self.concurrency_limit >= 1 && self.max_attempts >= 1
    }
}

/// What the driver reports to the scheduler.
#[derive(Debug)]
pub enum Event {
    /// The transfer may begin.
    Start,
    /// The transport moved a part.
    PartSucceeded { result: PartResult },
    /// A part's attempt ended without moving it; a job that was cancelled
    /// reports `ErrorKind::Cancelled`.
    PartFailed { part_number: u32, kind: ErrorKind },
    /// The delay before a part's next attempt has passed.
    BackoffElapsed { part_number: u32 },
    /// The caller cancelled, or the transfer's deadline passed.
    CancelRequested,
    /// The remote session was aborted.
    SessionAborted,
}

/// What the scheduler asks the driver to do.
#[derive(Clone, Copy, Debug, PartialEq, Eq, Structural)]
pub enum Action {
    /// Submit `part` to the transport with a fresh reader; this is its
    /// `attempt`-th attempt.
    Dispatch { part: PartSpec, attempt: u32 },
    /// Report `BackoffElapsed` for the part after `delay_ms` milliseconds.
    Backoff { part_number: u32, delay_ms: u64 },
    /// Signal the part's job to stop.
    CancelPart { part_number: u32 },
    /// Tell the progress sink that the part was moved; nothing is awaited.
    Progress { part_number: u32, bytes: u64 },
    /// Abort the remote session, then report `SessionAborted`.
    AbortSession,
    /// The transfer reached a terminal phase.
    Finish,
}

/// The state of one transfer, as plain values. Part number `n` is found at
/// index `n - 1` of `parts` and `results`.
pub struct TransferStateView {
    pub plan: PartPlanView,
    pub parts: Seq<PartState>,
    pub results: Seq<Option<PartResult>>,
    pub cancelled: bool,
    pub phase: Phase,
    pub failure: Option<TransferError>,
    pub abort_issued: bool,
}

impl TransferStateView {
    /// The results recorded so far, by part number.
    pub open spec fn completed(self) -> Map<u32, PartResult> {
        Map::new(
            |n: u32| 1 <= n <= self.results.len() && self.results[n - 1] is Some,
            |n: u32| self.results[n - 1]->Some_0,
        )
    }

    /// The numbers of the parts in flight.
    pub open spec fn in_flight(self) -> Set<u32> {
        in_flight_set(self.parts)
    }
}

/// The numbers of the parts in flight.
pub open spec fn in_flight_set(parts: Seq<PartState>) -> Set<u32> {
    Set::new(|n: u32| 1 <= n <= parts.len() && parts[n - 1] is InFlight)
}

/// The set of the parts in flight has as many members as parts are counted
/// in flight.
pub proof fn lemma_in_flight_set(parts: Seq<PartState>)
    requires
        parts.len() <= u32::MAX,
    ensures
        in_flight_set(parts).finite(),
        in_flight_set(parts).len() == in_flight_count(parts),
    decreases parts.len(),
{
    if parts.len() == 0 {
        assert(in_flight_set(parts) =~= Set::<u32>::empty());
    } else {
        let front = parts.drop_last();
        let number = parts.len() as u32;
        lemma_in_flight_set(front);
        if parts.last() is InFlight {
            assert(in_flight_set(parts) =~= in_flight_set(front).insert(number));
        } else {
            assert(in_flight_set(parts) =~= in_flight_set(front));
        }
    }
}

/// The number of parts in flight.
pub open spec fn in_flight_count(parts: Seq<PartState>) -> nat
    decreases parts.len(),
{
    if parts.len() == 0 {
        0
    } else {
        in_flight_count(parts.drop_last()) + if parts.last() is InFlight {
            1nat
        } else {
            0nat
        }
    }
}

/// The number of parts that were moved.
pub open spec fn succeeded_count(parts: Seq<PartState>) -> nat
    decreases parts.len(),
{
    if parts.len() == 0 {
        0
    } else {
        succeeded_count(parts.drop_last()) + if parts.last() is Succeeded {
            1nat
        } else {
            0nat
        }
    }
}

/// Every part was moved.
pub open spec fn all_succeeded(parts: Seq<PartState>) -> bool {
    forall|i: int| 0 <= i < parts.len() ==> (#[trigger] parts[i]) is Succeeded
}

/// A part that may be submitted now.
pub open spec fn eligible(state: PartState) -> bool {
    state is Pending || state matches PartState::Retrying { ready: true, .. }
}

/// The state of an eligible part once it is submitted.
pub open spec fn launched(state: PartState) -> PartState {
    match state {
        PartState::Retrying { attempts, .. } => PartState::InFlight {
            attempt: (attempts + 1) as u32,
        },
        _ => PartState::InFlight { attempt: 1 },
    }
}

/// The attempt number of a part in flight.
pub open spec fn attempt_of(state: PartState) -> u32 {
    match state {
        PartState::InFlight { attempt } => attempt,
        _ => 0,
    }
}

/// The part states after the free slots were given to the eligible parts at
/// index `from` and above, lowest number first.
pub open spec fn fill_parts(parts: Seq<PartState>, from: int, free: int) -> Seq<PartState>
    decreases parts.len() - from,
{
    if from < 0 || from >= parts.len() || free <= 0 {
        parts
    } else if eligible(parts[from]) {
        fill_parts(parts.update(from, launched(parts[from])), from + 1, free - 1)
    } else {
        fill_parts(parts, from + 1, free)
    }
}

/// The submissions that go with `fill_parts`, in ascending part-number order.
pub open spec fn fill_actions(specs: Seq<PartSpec>, parts: Seq<PartState>, from: int, free: int)
    -> Seq<Action>
    decreases parts.len() - from,
{
    if from < 0 || from >= parts.len() || free <= 0 {
        Seq::empty()
    } else if eligible(parts[from]) {
        seq![
            Action::Dispatch { part: specs[from], attempt: attempt_of(launched(parts[from])) },
        ] + fill_actions(specs, parts, from + 1, free - 1)
    } else {
        fill_actions(specs, parts, from + 1, free)
    }
}

/// One stop signal for each part in flight at index `from` and above, in
/// ascending part-number order.
pub open spec fn cancel_actions(parts: Seq<PartState>, from: int) -> Seq<Action>
    decreases parts.len() - from,
{
    if from < 0 || from >= parts.len() {
        Seq::empty()
    } else if parts[from] is InFlight {
        seq![Action::CancelPart { part_number: (from + 1) as u32 }] + cancel_actions(
            parts,
            from + 1,
        )
    } else {
        cancel_actions(parts, from + 1)
    }
}

/// What follows once a part has left flight or the phase has changed: a
/// running transfer completes or fills its free slots, a transfer that is
/// winding down aborts its session as soon as nothing is in flight.
pub open spec fn settle(s: TransferStateView, config: SchedulerConfig) -> (
    TransferStateView,
    Seq<Action>,
) {
    match s.phase {
        Phase::Running => {
            if all_succeeded(s.parts) {
                (TransferStateView { phase: Phase::Completed, ..s }, seq![Action::Finish])
            } else {
                let free = config.concurrency_limit - in_flight_count(s.parts);
                (
                    TransferStateView { parts: fill_parts(s.parts, 0, free), ..s },
                    fill_actions(s.plan.parts, s.parts, 0, free),
                )
            }
        },
        Phase::Aborting => {
            if in_flight_count(s.parts) == 0 && !s.abort_issued {
                if s.plan.simple {
                    (TransferStateView { phase: Phase::Failed, ..s }, seq![Action::Finish])
                } else {
                    (TransferStateView { abort_issued: true, ..s }, seq![Action::AbortSession])
                }
            } else {
                (s, Seq::empty())
            }
        },
        _ => (s, Seq::empty()),
    }
}

/// The transfer starts to wind down: the failure is recorded, every part in
/// flight is told to stop, and the session is aborted at once if nothing is
/// in flight.
pub open spec fn begin_abort(s: TransferStateView, config: SchedulerConfig, error: TransferError)
    -> (TransferStateView, Seq<Action>) {
    let winding = TransferStateView { phase: Phase::Aborting, failure: Some(error), ..s };
    let settled = settle(winding, config);
    (settled.0, cancel_actions(s.parts, 0) + settled.1)
}

/// Whether `part_number` names a part of the transfer that is in flight.
pub open spec fn names_in_flight(s: TransferStateView, part_number: u32) -> bool {
    &&& 1 <= part_number <= s.parts.len()
    &&& s.parts[part_number - 1] is InFlight
    &&& (s.phase == Phase::Running || s.phase == Phase::Aborting)
}

/// Whether `part_number` names a part of a running transfer that waits out
/// its delay.
pub open spec fn names_waiting(s: TransferStateView, part_number: u32) -> bool {
    &&& s.phase == Phase::Running
    &&& 1 <= part_number <= s.parts.len()
    &&& s.parts[part_number - 1] matches PartState::Retrying { ready: false, .. }
}

/// The scheduler's transition function: the state after `event` and the
/// actions it calls for. An event that does not fit the state (a result for
/// a part that is not in flight, a second start) changes nothing.
pub open spec fn next(s: TransferStateView, config: SchedulerConfig, event: Event) -> (
    TransferStateView,
    Seq<Action>,
) {
    match event {
        Event::Start => {
            if s.phase == Phase::Planning {
                settle(TransferStateView { phase: Phase::Running, ..s }, config)
            } else {
                (s, Seq::empty())
            }
        },
        Event::PartSucceeded { result } => {
            if names_in_flight(s, result.part_number) {
                let index = result.part_number - 1;
                let settled = settle(
                    TransferStateView {
                        parts: s.parts.update(index, PartState::Succeeded),
                        results: s.results.update(index, Some(result)),
                        ..s
                    },
                    config,
                );
                (
                    settled.0,
                    seq![
                        Action::Progress {
                            part_number: result.part_number,
                            bytes: result.bytes_transferred,
                        },
                    ] + settled.1,
                )
            } else {
                (s, Seq::empty())
            }
        },
        Event::PartFailed { part_number, kind } => {
            if names_in_flight(s, part_number) {
                let index = part_number - 1;
                let attempt = attempt_of(s.parts[index]);
                if s.phase == Phase::Running && kind.retryable() && attempt < config.max_attempts {
                    let waiting = TransferStateView {
                        parts: s.parts.update(
                            index,
                            PartState::Retrying { attempts: attempt, ready: false },
                        ),
                        ..s
                    };
                    let settled = settle(waiting, config);
                    (
                        settled.0,
                        seq![
                            Action::Backoff {
                                part_number,
                                delay_ms: backoff_delay(
                                    config.backoff_base_ms,
                                    config.backoff_max_ms,
                                    attempt,
                                ) as u64,
                            },
                        ] + settled.1,
                    )
                } else {
                    let stopped = TransferStateView {
                        parts: s.parts.update(index, PartState::Failed),
                        ..s
                    };
                    if s.phase == Phase::Running {
                        begin_abort(
                            stopped,
                            config,
                            TransferError { kind, part_number: Some(part_number) },
                        )
                    } else {
                        settle(stopped, config)
                    }
                }
            } else {
                (s, Seq::empty())
            }
        },
        Event::BackoffElapsed { part_number } => {
            if names_waiting(s, part_number) {
                let index = part_number - 1;
                let attempts = s.parts[index]->Retrying_attempts;
                settle(
                    TransferStateView {
                        parts: s.parts.update(index, PartState::Retrying { attempts, ready: true }),
                        ..s
                    },
                    config,
                )
            } else {
                (s, Seq::empty())
            }
        },
        Event::CancelRequested => {
            let error = TransferError { kind: ErrorKind::Cancelled, part_number: None };
            if s.phase == Phase::Planning {
                (
                    TransferStateView {
                        cancelled: true,
                        phase: Phase::Failed,
                        failure: Some(error),
                        ..s
                    },
                    seq![Action::Finish],
                )
            } else if s.phase == Phase::Running {
                begin_abort(TransferStateView { cancelled: true, ..s }, config, error)
            } else {
                (s, Seq::empty())
            }
        },
        Event::SessionAborted => {
            if s.phase == Phase::Aborting && s.abort_issued {
                (TransferStateView { phase: Phase::Aborted, ..s }, seq![Action::Finish])
            } else {
                (s, Seq::empty())
            }
        },
    }
}

/// The attempt counts stay within `max_attempts`.
pub open spec fn attempts_in_range(state: PartState, config: SchedulerConfig) -> bool {
    match state {
        PartState::InFlight { attempt } => 1 <= attempt <= config.max_attempts,
        PartState::Retrying { attempts, .. } => 1 <= attempts < config.max_attempts,
        _ => true,
    }
}

/// What must hold before `settle` for the phase to be consistent after it.
pub open spec fn settle_ready(s: TransferStateView) -> bool {
    match s.phase {
        Phase::Running => s.failure is None && !s.abort_issued && !s.cancelled,
        Phase::Aborting => s.failure is Some && (s.abort_issued ==> in_flight_count(s.parts) == 0
            && !s.plan.simple),
        _ => phase_consistent(s),
    }
}

/// What each phase says of the rest of the state.
pub open spec fn phase_consistent(s: TransferStateView) -> bool {
    match s.phase {
        Phase::Planning => {
            &&& forall|i: int| 0 <= i < s.parts.len() ==> (#[trigger] s.parts[i]) is Pending
            &&& s.failure is None
            &&& !s.abort_issued
            &&& !s.cancelled
        },
        Phase::Running => s.failure is None && !s.abort_issued && !s.cancelled,
        Phase::Completed => all_succeeded(s.parts) && s.failure is None && !s.abort_issued
            && !s.cancelled,
        Phase::Aborting => {
            &&& s.failure is Some
            &&& s.abort_issued ==> in_flight_count(s.parts) == 0 && !s.plan.simple
            &&& in_flight_count(s.parts) == 0 ==> s.abort_issued
        },
        Phase::Aborted => {
            &&& s.failure is Some
            &&& s.abort_issued
            &&& in_flight_count(s.parts) == 0
            &&& !s.plan.simple
        },
        Phase::Failed => s.failure is Some && !s.abort_issued && in_flight_count(s.parts) == 0,
    }
}

/// What holds of a transfer's state apart from its phase.
pub open spec fn coherent(s: TransferStateView, config: SchedulerConfig) -> bool {
    &&& config.valid()
    &&& is_partition(s.plan.parts, s.plan.total_size)
    &&& s.parts.len() == s.plan.parts.len()
    &&& s.results.len() == s.plan.parts.len()
    &&& in_flight_count(s.parts) <= config.concurrency_limit
    &&& forall|i: int|
        0 <= i < s.parts.len() ==> ((#[trigger] s.parts[i]) is Succeeded <==> s.results[i] is Some)
    &&& forall|i: int|
        0 <= i < s.results.len() ==> ((#[trigger] s.results[i]) matches Some(r)
            ==> r.part_number == i + 1)
    &&& forall|i: int|
        0 <= i < s.parts.len() ==> attempts_in_range(#[trigger] s.parts[i], config)
}

/// What holds of every state a scheduler reaches: the parts in flight never
/// outnumber `concurrency_limit`, a result is recorded for exactly the parts
/// that were moved, no part is tried more than `max_attempts` times, a
/// completed transfer has moved every part and never asked for an abort, and
/// an aborted one asked for it with nothing left in flight.
pub open spec fn consistent(s: TransferStateView, config: SchedulerConfig) -> bool {
    coherent(s, config) && phase_consistent(s)
}

/// Replacing one part's state moves the in-flight count by at most one.
pub proof fn lemma_in_flight_update(parts: Seq<PartState>, index: int, state: PartState)
    requires
        0 <= index < parts.len(),
    ensures
        in_flight_count(parts.update(index, state)) == in_flight_count(parts) - (if parts[index]
            is InFlight {
            1int
        } else {
            0int
        }) + (if state is InFlight {
            1int
        } else {
            0int
        }),
    decreases parts.len(),
{
    let updated = parts.update(index, state);
    if index == parts.len() - 1 {
        assert(updated.drop_last() =~= parts.drop_last());
    } else {
        lemma_in_flight_update(parts.drop_last(), index, state);
        assert(updated.drop_last() =~= parts.drop_last().update(index, state));
    }
}

/// Replacing one part's state moves the count of moved parts by at most one.
pub proof fn lemma_succeeded_update(parts: Seq<PartState>, index: int, state: PartState)
    requires
        0 <= index < parts.len(),
    ensures
        succeeded_count(parts.update(index, state)) == succeeded_count(parts) - (if parts[index]
            is Succeeded {
            1int
        } else {
            0int
        }) + (if state is Succeeded {
            1int
        } else {
            0int
        }),
    decreases parts.len(),
{
    let updated = parts.update(index, state);
    if index == parts.len() - 1 {
        assert(updated.drop_last() =~= parts.drop_last());
    } else {
        lemma_succeeded_update(parts.drop_last(), index, state);
        assert(updated.drop_last() =~= parts.drop_last().update(index, state));
    }
}

/// All parts were moved exactly when the count of moved parts is the part
/// count.
pub proof fn lemma_succeeded_all(parts: Seq<PartState>)
    ensures
        succeeded_count(parts) <= parts.len(),
        succeeded_count(parts) == parts.len() <==> all_succeeded(parts),
    decreases parts.len(),
{
    if parts.len() > 0 {
        let front = parts.drop_last();
        lemma_succeeded_all(front);
        if all_succeeded(parts) {
            assert forall|i: int| 0 <= i < front.len() implies (
            #[trigger] front[i]) is Succeeded by {
                assert(parts[i] is Succeeded);
            }
            assert(parts[parts.len() - 1] is Succeeded);
        }
        if succeeded_count(parts) == parts.len() {
            assert forall|i: int| 0 <= i < parts.len() implies (
            #[trigger] parts[i]) is Succeeded by {
                if i < front.len() {
                    assert(front[i] is Succeeded);
                }
            }
        }
    }
}

/// With no part in flight or moved, both counts are zero.
pub proof fn lemma_counts_of_idle(parts: Seq<PartState>)
    requires
        forall|i: int|
            0 <= i < parts.len() ==> !((#[trigger] parts[i]) is InFlight) && !(parts[i]
                is Succeeded),
    ensures
        in_flight_count(parts) == 0,
        succeeded_count(parts) == 0,
    decreases parts.len(),
{
    if parts.len() > 0 {
        let front = parts.drop_last();
        assert forall|i: int| 0 <= i < front.len() implies !((#[trigger] front[i]) is InFlight)
            && !(front[i] is Succeeded) by {
            assert(front[i] == parts[i]);
        }
        lemma_counts_of_idle(front);
        assert(!(parts[parts.len() - 1] is InFlight));
    }
}

/// The state a transfer starts in: nothing submitted, nothing recorded.
pub open spec fn initial(plan: PartPlanView) -> TransferStateView {
    TransferStateView {
        plan,
        parts: Seq::new(plan.parts.len(), |i: int| PartState::Pending),
        results: Seq::new(plan.parts.len(), |i: int| None::<PartResult>),
        cancelled: false,
        phase: Phase::Planning,
        failure: None,
        abort_issued: false,
    }
}

/// The process-local state of one transfer in flight.
#[derive(Debug)]
pub struct TransferState {
    plan: PartPlan,
    states: Vec<PartState>,
    results: Vec<Option<PartResult>>,
    in_flight: u32,
    succeeded: usize,
    cancelled: bool,
    phase: Phase,
    failure: Option<TransferError>,
    abort_issued: bool,
}

impl View for TransferState {
    type V = TransferStateView;

    closed spec fn view(&self) -> TransferStateView {
        TransferStateView {
            plan: self.plan@,
            parts: self.states@,
            results: self.results@,
            cancelled: self.cancelled,
            phase: self.phase,
            failure: self.failure,
            abort_issued: self.abort_issued,
        }
    }
}

impl TransferState {
    /// The two counters agree with the part states.
    pub closed spec fn counted(&self) -> bool {
        &&& self.in_flight == in_flight_count(self.states@)
        &&& self.succeeded == succeeded_count(self.states@)
    }

    /// The state is well formed under `config`.
    pub open spec fn wf(&self, config: SchedulerConfig) -> bool {
        consistent(self@, config) && self.counted()
    }

    /// The state of a transfer that has not started.
    pub(crate) fn new(plan: PartPlan, config: &SchedulerConfig) -> (state: TransferState)
        requires
            config.valid(),
        ensures
            state@ == initial(plan@),
            state.wf(*config),
    {
        let count = plan.parts().len();
        let mut states: Vec<PartState> = Vec::new();
        let mut results: Vec<Option<PartResult>> = Vec::new();
        let mut index: usize = 0;
        while index < count
            invariant
                index <= count,
                states@.len() == index,
                results@.len() == index,
                forall|k: int| 0 <= k < index ==> states@[k] == PartState::Pending,
                forall|k: int| 0 <= k < index ==> results@[k] == None::<PartResult>,
            decreases count - index,
        {
            states.push(PartState::Pending);
            results.push(None);
            index = index + 1;
        }
        proof {
            lemma_counts_of_idle(states@);
            assert(states@ =~= initial(plan@).parts);
            assert(results@ =~= initial(plan@).results);
        }
        TransferState {
            plan,
            states,
            results,
            in_flight: 0,
            succeeded: 0,
            cancelled: false,
            phase: Phase::Planning,
            failure: None,
            abort_issued: false,
        }
    }

    /// Gives the free slots to the eligible parts, lowest number first.
    fn fill(&mut self, config: &SchedulerConfig, actions: &mut Vec<Action>)
        requires
            coherent(old(self)@, *config),
            old(self).counted(),
        ensures
            final(self)@ == (TransferStateView {
                parts: fill_parts(
                    old(self)@.parts,
                    0,
                    config.concurrency_limit - in_flight_count(old(self)@.parts),
                ),
                ..old(self)@
            }),
            final(actions)@ == old(actions)@ + fill_actions(
                old(self)@.plan.parts,
                old(self)@.parts,
                0,
                config.concurrency_limit - in_flight_count(old(self)@.parts),
            ),
            coherent(final(self)@, *config),
            final(self).counted(),
    {
        let ghost before = self@;
        let ghost base = actions@;
        let ghost free = config.concurrency_limit - in_flight_count(before.parts);
        let ghost target_parts = fill_parts(before.parts, 0, free);
        let ghost target_actions = fill_actions(before.plan.parts, before.parts, 0, free);
        let mut index: usize = 0;
        assert(base + target_actions =~= actions@ + target_actions);
        while index < self.states.len() && self.in_flight < config.concurrency_limit
            invariant
                index <= self.states.len(),
                coherent(self@, *config),
                self.counted(),
                self@ == (TransferStateView { parts: self.states@, ..before }),
                fill_parts(
                    self.states@,
                    index as int,
                    config.concurrency_limit - self.in_flight,
                ) == target_parts,
                actions@ + fill_actions(
                    before.plan.parts,
                    self.states@,
                    index as int,
                    config.concurrency_limit - self.in_flight,
                ) == base + target_actions,
            decreases self.states.len() - index,
        {
            let state = self.states[index];
            let attempt: Option<u32> = match state {
                PartState::Pending => Some(1),
                PartState::Retrying { attempts, ready } => {
                    if ready {
                        assert(attempts_in_range(self.states@[index as int], *config));
                        Some(attempts + 1)
                    } else {
                        None
                    }
                },
                _ => None,
            };
            if let Some(attempt) = attempt {
                let ghost prior = self.states@;
                let ghost prior_actions = actions@;
                let ghost slots = config.concurrency_limit - self.in_flight;
                let launched_state = PartState::InFlight { attempt };
                proof {
                    assert(eligible(state));
                    assert(launched_state == launched(state));
                    lemma_in_flight_update(prior, index as int, launched_state);
                    lemma_succeeded_update(prior, index as int, launched_state);
                }
                let part = self.plan.parts()[index];
                self.states[index] = launched_state;
                self.in_flight = self.in_flight + 1;
                actions.push(Action::Dispatch { part, attempt });
                proof {
                    let rest = fill_actions(
                        before.plan.parts,
                        self.states@,
                        index + 1,
                        slots - 1,
                    );
                    lemma_fill_actions_skip(
                        before.plan.parts,
                        prior,
                        launched_state,
                        index as int,
                        index + 1,
                        slots - 1,
                    );
                    assert(fill_actions(before.plan.parts, prior, index as int, slots) == seq![
                        Action::Dispatch { part, attempt },
                    ] + fill_actions(before.plan.parts, prior, index + 1, slots - 1));
                    assert(actions@ + rest =~= prior_actions + (seq![
                        Action::Dispatch { part, attempt },
                    ] + rest));
                    assert forall|i: int| 0 <= i < self.states@.len() implies attempts_in_range(
                        #[trigger] self.states@[i],
                        *config,
                    ) by {
                        if i != index {
                            assert(self.states@[i] == prior[i]);
                        }
                    }
                    assert forall|i: int| 0 <= i < self.states@.len() implies ((
                    #[trigger] self.states@[i]) is Succeeded <==> self.results@[i] is Some) by {
                        if i != index {
                            assert(self.states@[i] == prior[i]);
                        } else {
                            assert(!(prior[i] is Succeeded));
                        }
                    }
                }
            }
            index = index + 1;
        }
    }

    /// Completes, fills free slots, or asks for the abort, as the phase calls
    /// for.
    fn settle(&mut self, config: &SchedulerConfig, actions: &mut Vec<Action>)
        requires
            coherent(old(self)@, *config),
            old(self).counted(),
            settle_ready(old(self)@),
        ensures
            final(self)@ == settle(old(self)@, *config).0,
            final(actions)@ == old(actions)@ + settle(old(self)@, *config).1,
            final(self).wf(*config),
    {
        let ghost before = self@;
        let ghost base = actions@;
        match self.phase {
            Phase::Running => {
                proof {
                    lemma_succeeded_all(self.states@);
                }
                if self.succeeded == self.states.len() {
                    self.phase = Phase::Completed;
                    actions.push(Action::Finish);
                    assert(actions@ =~= base + seq![Action::Finish]);
                } else {
                    self.fill(config, actions);
                }
            },
            Phase::Aborting => {
                if self.in_flight == 0 && !self.abort_issued {
                    if self.plan.is_simple() {
                        self.phase = Phase::Failed;
                        actions.push(Action::Finish);
                        assert(actions@ =~= base + seq![Action::Finish]);
                    } else {
                        self.abort_issued = true;
                        actions.push(Action::AbortSession);
                        assert(actions@ =~= base + seq![Action::AbortSession]);
                    }
                } else {
                    assert(actions@ =~= base + Seq::<Action>::empty());
                }
            },
            _ => {
                assert(actions@ =~= base + Seq::<Action>::empty());
            },
        }
    }

    /// Tells every part in flight to stop.
    fn cancel_in_flight(&self, config: &SchedulerConfig, actions: &mut Vec<Action>)
        requires
            coherent(self@, *config),
        ensures
            final(actions)@ == old(actions)@ + cancel_actions(self@.parts, 0),
    {
        let ghost base = actions@;
        let ghost target = cancel_actions(self@.parts, 0);
        let mut index: usize = 0;
        assert(base + target =~= actions@ + target);
        while index < self.states.len()
            invariant
                index <= self.states.len(),
                self.states@.len() <= u32::MAX,
                actions@ + cancel_actions(self.states@, index as int) == base + target,
            decreases self.states.len() - index,
        {
            if let PartState::InFlight { .. } = self.states[index] {
                let ghost prior_actions = actions@;
                let part_number: u32 = (index + 1) as u32;
                actions.push(Action::CancelPart { part_number });
                proof {
                    let rest = cancel_actions(self.states@, index + 1);
                    assert(actions@ + rest =~= prior_actions + (seq![
                        Action::CancelPart { part_number },
                    ] + rest));
                }
            }
            index = index + 1;
        }
        assert(actions@ + Seq::<Action>::empty() =~= actions@);
    }

    /// Records the failure and starts to wind the transfer down.
    fn begin_abort(
        &mut self,
        config: &SchedulerConfig,
        error: TransferError,
        actions: &mut Vec<Action>,
    )
        requires
            coherent(old(self)@, *config),
            old(self).counted(),
            !old(self)@.abort_issued,
        ensures
            final(self)@ == begin_abort(old(self)@, *config, error).0,
            final(actions)@ == old(actions)@ + begin_abort(old(self)@, *config, error).1,
            final(self).wf(*config),
    {
        let ghost before = self@;
        let ghost base = actions@;
        self.cancel_in_flight(config, actions);
        self.phase = Phase::Aborting;
        self.failure = Some(error);
        let ghost winding = self@;
        self.settle(config, actions);
        proof {
            assert(winding == (TransferStateView {
                phase: Phase::Aborting,
                failure: Some(error),
                ..before
            }));
            assert(actions@ =~= base + (cancel_actions(before.parts, 0) + settle(
                winding,
                *config,
            ).1));
        }
    }

    /// Takes one event and answers with the actions it calls for.
    pub(crate) fn step(&mut self, config: &SchedulerConfig, event: Event) -> (actions: Vec<Action>)
        requires
            old(self).wf(*config),
        ensures
            final(self)@ == next(old(self)@, *config, event).0,
            actions@ == next(old(self)@, *config, event).1,
            final(self).wf(*config),
    {
        let ghost before = self@;
        let mut actions: Vec<Action> = Vec::new();
        assert(Seq::<Action>::empty() + next(before, *config, event).1 =~= next(
            before,
            *config,
            event,
        ).1);
        let count = self.states.len();
        match event {
            Event::Start => {
                if let Phase::Planning = self.phase {
                    self.phase = Phase::Running;
                    self.settle(config, &mut actions);
                }
            },
            Event::PartSucceeded { result } => {
                let number = result.part_number;
                if number >= 1 && number as usize <= count && self.accepts_results() {
                    let index: usize = (number - 1) as usize;
                    if let PartState::InFlight { .. } = self.states[index] {
                        proof {
                            let moved = PartState::Succeeded;
                            lemma_in_flight_update(self.states@, index as int, moved);
                            lemma_succeeded_update(self.states@, index as int, moved);
                            lemma_succeeded_all(self.states@);
                        }
                        let progress = Action::Progress {
                            part_number: number,
                            bytes: result.bytes_transferred,
                        };
                        self.states[index] = PartState::Succeeded;
                        self.results[index] = Some(result);
                        self.in_flight = self.in_flight - 1;
                        self.succeeded = self.succeeded + 1;
                        actions.push(progress);
                        let ghost recorded_view = self@;
                        self.settle(config, &mut actions);
                        assert(actions@ =~= seq![progress] + settle(recorded_view, *config).1);
                    }
                }
            },
            Event::PartFailed { part_number, kind } => {
                if part_number >= 1 && part_number as usize <= count && self.accepts_results() {
                    let index: usize = (part_number - 1) as usize;
                    if let PartState::InFlight { attempt } = self.states[index] {
                        let running = match self.phase {
                            Phase::Running => true,
                            _ => false,
                        };
                        assert(attempts_in_range(self.states@[index as int], *config));
                        if running && kind.is_retryable() && attempt < config.max_attempts {
                            let waiting = PartState::Retrying { attempts: attempt, ready: false };
                            proof {
                                lemma_in_flight_update(self.states@, index as int, waiting);
                                lemma_succeeded_update(self.states@, index as int, waiting);
                            }
                            self.states[index] = waiting;
                            self.in_flight = self.in_flight - 1;
                            let delay_ms = backoff_delay_ms(
                                config.backoff_base_ms,
                                config.backoff_max_ms,
                                attempt,
                            );
                            actions.push(Action::Backoff { part_number, delay_ms });
                            let ghost waiting_view = self@;
                            self.settle(config, &mut actions);
                            assert(actions@ =~= seq![Action::Backoff { part_number, delay_ms }]
                                + settle(waiting_view, *config).1);
                        } else {
                            proof {
                                let stopped = PartState::Failed;
                                lemma_in_flight_update(self.states@, index as int, stopped);
                                lemma_succeeded_update(self.states@, index as int, stopped);
                            }
                            self.states[index] = PartState::Failed;
                            self.in_flight = self.in_flight - 1;
                            if running {
                                self.begin_abort(
                                    config,
                                    TransferError::of_part(kind, part_number),
                                    &mut actions,
                                );
                            } else {
                                self.settle(config, &mut actions);
                            }
                        }
                    }
                }
            },
            Event::BackoffElapsed { part_number } => {
                if let Phase::Running = self.phase {
                    if part_number >= 1 && part_number as usize <= count {
                        let index: usize = (part_number - 1) as usize;
                        if let PartState::Retrying { attempts, ready: false } = self.states[index] {
                            let ready = PartState::Retrying { attempts, ready: true };
                            proof {
                                assert(attempts_in_range(self.states@[index as int], *config));
                                lemma_in_flight_update(self.states@, index as int, ready);
                                lemma_succeeded_update(self.states@, index as int, ready);
                            }
                            self.states[index] = ready;
                            self.settle(config, &mut actions);
                        }
                    }
                }
            },
            Event::CancelRequested => {
                match self.phase {
                    Phase::Planning => {
                        proof {
                            lemma_counts_of_idle(self.states@);
                        }
                        self.cancelled = true;
                        self.phase = Phase::Failed;
                        self.failure = Some(TransferError::whole(ErrorKind::Cancelled));
                        actions.push(Action::Finish);
                    },
                    Phase::Running => {
                        self.cancelled = true;
                        self.begin_abort(
                            config,
                            TransferError::whole(ErrorKind::Cancelled),
                            &mut actions,
                        );
                    },
                    _ => {},
                }
            },
            Event::SessionAborted => {
                if let Phase::Aborting = self.phase {
                    if self.abort_issued {
                        self.phase = Phase::Aborted;
                        actions.push(Action::Finish);
                    }
                }
            },
        }
        actions
    }

    /// Whether results of parts in flight are still taken.
    fn accepts_results(&self) -> (r: bool)
        ensures
            r == (self@.phase == Phase::Running || self@.phase == Phase::Aborting),
    {
        match self.phase {
            Phase::Running => true,
            Phase::Aborting => true,
            _ => false,
        }
    }
}

/// Submissions past `index` do not depend on the state at `index`.
proof fn lemma_fill_actions_skip(
    specs: Seq<PartSpec>,
    parts: Seq<PartState>,
    state: PartState,
    index: int,
    from: int,
    free: int,
)
    requires
        0 <= index < from,
        index < parts.len(),
    ensures
        fill_actions(specs, parts.update(index, state), from, free) == fill_actions(
            specs,
            parts,
            from,
            free,
        ),
    decreases parts.len() - from,
{
    if from < parts.len() && free > 0 {
        if eligible(parts[from]) {
            lemma_fill_actions_skip(specs, parts, state, index, from + 1, free - 1);
        } else {
            lemma_fill_actions_skip(specs, parts, state, index, from + 1, free);
        }
    }
}

/// A part that was moved: its number and the token the remote side gave it.
#[derive(Debug)]
pub struct CompletedPart {
    pub part_number: u32,
    pub remote_identifier: String,
}

/// The recorded results in index order, each as its part number and its
/// remote identifier.
pub open spec fn recorded(results: Seq<Option<PartResult>>) -> Seq<(u32, Seq<char>)>
    decreases results.len(),
{
    if results.len() == 0 {
        Seq::empty()
    } else {
        let front = recorded(results.drop_last());
        match results.last() {
            Some(r) => front.push((r.part_number, r.remote_identifier@)),
            None => front,
        }
    }
}

/// The part numbers grow strictly along the list.
pub open spec fn ascending(list: Seq<(u32, Seq<char>)>) -> bool {
    forall|i: int, j: int| 0 <= i < j < list.len() ==> list[i].0 < list[j].0
}

/// Results recorded under their own part numbers come out in ascending
/// part-number order, whatever the order in which they came in.
pub proof fn lemma_recorded_ascending(results: Seq<Option<PartResult>>)
    requires
        forall|i: int|
            0 <= i < results.len() ==> ((#[trigger] results[i]) matches Some(r) ==> r.part_number
                == i + 1),
    ensures
        ascending(recorded(results)),
        recorded(results).len() <= results.len(),
        forall|k: int|
            0 <= k < recorded(results).len() ==> 1 <= (#[trigger] recorded(results)[k]).0
                <= results.len(),
    decreases results.len(),
{
    if results.len() > 0 {
        let front = results.drop_last();
        assert forall|i: int| 0 <= i < front.len() implies ((#[trigger] front[i]) matches Some(r)
            ==> r.part_number == i + 1) by {
            assert(front[i] == results[i]);
        }
        lemma_recorded_ascending(front);
        assert(results[results.len() - 1] == results.last());
    }
}

/// Once every part has a result, the list holds one entry for each part,
/// the entry at index `i` being that of part `i + 1`.
pub proof fn lemma_recorded_complete(results: Seq<Option<PartResult>>)
    requires
        forall|i: int|
            0 <= i < results.len() ==> ((#[trigger] results[i]) matches Some(r) && r.part_number
                == i + 1),
    ensures
        recorded(results).len() == results.len(),
        forall|i: int|
            0 <= i < results.len() ==> (#[trigger] recorded(results)[i]) == (
                (i + 1) as u32,
                results[i]->Some_0.remote_identifier@,
            ),
    decreases results.len(),
{
    if results.len() > 0 {
        let front = results.drop_last();
        assert forall|i: int| 0 <= i < front.len() implies ((#[trigger] front[i]) matches Some(r)
            && r.part_number == i + 1) by {
            assert(front[i] == results[i]);
        }
        lemma_recorded_complete(front);
        assert(results[results.len() - 1] == results.last());
        assert forall|i: int| 0 <= i < results.len() implies (#[trigger] recorded(results)[i]) == (
            (i + 1) as u32,
            results[i]->Some_0.remote_identifier@,
        ) by {
            if i < front.len() {
                assert(recorded(front)[i] == ((i + 1) as u32, front[i]->Some_0.remote_identifier@));
            }
        }
    }
}

/// How a list of completed parts reads as plain values.
pub open spec fn completed_view(list: Seq<CompletedPart>) -> Seq<(u32, Seq<char>)> {
    Seq::new(list.len(), |i: int| (list[i].part_number, list[i].remote_identifier@))
}

impl TransferState {
    /// The plan the transfer follows.
    pub fn plan(&self) -> (r: &PartPlan)
        ensures
            r@ == self@.plan,
    {
        &self.plan
    }

    /// The phase the transfer is in.
    pub fn phase(&self) -> (r: Phase)
        ensures
            r == self@.phase,
    {
        self.phase
    }

    /// Whether the caller cancelled the transfer.
    pub fn is_cancelled(&self) -> (r: bool)
        ensures
            r == self@.cancelled,
    {
        self.cancelled
    }

    /// The failure that ended the transfer, if one did.
    pub fn failure(&self) -> (r: Option<TransferError>)
        ensures
            r == self@.failure,
    {
        self.failure
    }

    /// Whether the abort of the remote session was asked for.
    pub fn abort_issued(&self) -> (r: bool)
        ensures
            r == self@.abort_issued,
    {
        self.abort_issued
    }

    /// The state of the part numbered `part_number`, if the plan has it.
    pub fn part_state(&self, part_number: u32) -> (r: Option<PartState>)
        ensures
            r == (if 1 <= part_number <= self@.parts.len() {
                Some(self@.parts[part_number - 1])
            } else {
                None
            }),
    {
        if part_number >= 1 && part_number as usize <= self.states.len() {
            Some(self.states[(part_number - 1) as usize])
        } else {
            None
        }
    }

    /// The result recorded for the part numbered `part_number`, if it was
    /// moved.
    pub fn result_of(&self, part_number: u32) -> (r: Option<&PartResult>)
        ensures
            r is Some <==> self@.completed().contains_key(part_number),
            r matches Some(result) ==> *result == self@.completed()[part_number],
    {
        if part_number >= 1 && part_number as usize <= self.results.len() {
            self.results[(part_number - 1) as usize].as_ref()
        } else {
            None
        }
    }

    /// Whether the part numbered `part_number` is in flight.
    pub fn is_in_flight(&self, part_number: u32) -> (r: bool)
        ensures
            r == self@.in_flight().contains(part_number),
    {
        if part_number >= 1 && part_number as usize <= self.states.len() {
            match self.states[(part_number - 1) as usize] {
                PartState::InFlight { .. } => true,
                _ => false,
            }
        } else {
            false
        }
    }

    /// The parts that were moved, in ascending part-number order.
    pub fn completed_parts(&self) -> (list: Vec<CompletedPart>)
        ensures
            completed_view(list@) == recorded(self@.results),
    {
        let mut list: Vec<CompletedPart> = Vec::new();
        let mut index: usize = 0;
        assert(self.results@.take(0) =~= Seq::<Option<PartResult>>::empty());
        assert(completed_view(list@) =~= recorded(self.results@.take(0)));
        while index < self.results.len()
            invariant
                index <= self.results.len(),
                completed_view(list@) == recorded(self.results@.take(index as int)),
            decreases self.results.len() - index,
        {
            let ghost prior = list@;
            proof {
                let upto = self.results@.take(index + 1);
                assert(upto.drop_last() =~= self.results@.take(index as int));
                assert(upto.last() == self.results@[index as int]);
            }
            match &self.results[index] {
                Some(result) => {
                    let remote_identifier = result.remote_identifier.clone();
                    list.push(CompletedPart { part_number: result.part_number, remote_identifier });
                    assert(completed_view(list@) =~= completed_view(prior).push(
                        (result.part_number, result.remote_identifier@),
                    ));
                },
                None => {},
            }
            index = index + 1;
        }
        assert(self.results@.take(index as int) =~= self.results@);
        list
    }
}

/// A scheduler: the limits it works under and the state of its transfer.
#[derive(Debug)]
pub struct Scheduler {
    config: SchedulerConfig,
    state: TransferState,
}

impl View for Scheduler {
    type V = TransferStateView;

    closed spec fn view(&self) -> TransferStateView {
        self.state@
    }
}

impl Scheduler {
    #[verifier::type_invariant]
    spec fn well_formed(&self) -> bool {
        self.state.wf(self.config)
    }

    /// The limits the scheduler works under.
    pub closed spec fn spec_config(&self) -> SchedulerConfig {
        self.config
    }

    /// A scheduler for `plan`, not yet started. Limits that allow no part to
    /// run, or no attempt at all, are refused as `InvalidConfiguration`.
    pub fn new(plan: PartPlan, config: SchedulerConfig) -> (r: Result<Scheduler, TransferError>)
        ensures
            config.valid() ==> r is Ok && r->Ok_0@ == initial(plan@) && r->Ok_0.spec_config()
                == config && consistent(r->Ok_0@, config),
            !config.valid() ==> r is Err && r->Err_0 == (TransferError {
                kind: ErrorKind::InvalidConfiguration,
                part_number: None,
            }),
    {
        if !config.is_valid() {
            return Err(TransferError::whole(ErrorKind::InvalidConfiguration));
        }
        let state = TransferState::new(plan, &config);
        Ok(Scheduler { config, state })
    }

    /// Takes one event and answers with the scheduler in its new state and
    /// the actions the driver is to carry out, in order. The new state and the
    /// actions are those of `next`; in the new state, as in every state, no
    /// more than `concurrency_limit` parts are in flight.
    pub fn step(self, event: Event) -> (r: (Scheduler, Vec<Action>))
        ensures
            r.0.spec_config() == self.spec_config(),
            r.0@ == next(self@, self.spec_config(), event).0,
            r.1@ == next(self@, self.spec_config(), event).1,
            consistent(self@, self.spec_config()),
            consistent(r.0@, self.spec_config()),
            in_flight_count(r.0@.parts) <= self.spec_config().concurrency_limit,
    {
        proof {
            use_type_invariant(&self);
        }
        let Scheduler { config, state } = self;
        let mut state = state;
        let actions = state.step(&config, event);
        (Scheduler { config, state }, actions)
    }

    /// The limits the scheduler works under.
    pub fn config(&self) -> (r: SchedulerConfig)
        ensures
            r == self.spec_config(),
    {
        self.config
    }

    /// The state of the transfer.
    pub fn state(&self) -> (r: &TransferState)
        ensures
            r@ == self@,
            consistent(r@, self.spec_config()),
    {
        proof {
            use_type_invariant(self);
        }
        &self.state
    }

    /// The number of parts in flight; never more than `concurrency_limit`.
    pub fn in_flight(&self) -> (r: u32)
        ensures
            r == in_flight_count(self@.parts),
            r == self@.in_flight().len(),
            r <= self.spec_config().concurrency_limit,
    {
        proof {
            use_type_invariant(self);
            let parts = self@.plan.parts;
            assert(parts[parts.len() - 1].part_number == parts.len());
            lemma_in_flight_set(self@.parts);
        }
        self.state.in_flight
    }

    /// Whether the transfer has ended.
    pub fn is_terminal(&self) -> (r: bool)
        ensures
            r == (self@.phase == Phase::Completed || self@.phase == Phase::Aborted || self@.phase
                == Phase::Failed),
    {
        match self.state.phase {
            Phase::Completed => true,
            Phase::Aborted => true,
            Phase::Failed => true,
            _ => false,
        }
    }

    /// The parts to hand to the remote side on completion: for a completed
    /// transfer one entry per part, the entry at index `i` being that of part
    /// `i + 1`; for any other, nothing.
    pub fn completion_list(&self) -> (r: Option<Vec<CompletedPart>>)
        ensures
            r is Some <==> self@.phase == Phase::Completed,
            r matches Some(list) ==> {
                &&& completed_view(list@) == recorded(self@.results)
                &&& list@.len() == self@.plan.parts.len()
                &&& ascending(completed_view(list@))
                &&& forall|i: int|
                    0 <= i < list@.len() ==> (#[trigger] list@[i]).part_number == i + 1
                        && self@.results[i] is Some && list@[i].remote_identifier@
                        == self@.results[i]->Some_0.remote_identifier@
            },
    {
        proof {
            use_type_invariant(self);
        }
        match self.state.phase {
            Phase::Completed => {
                let list = self.state.completed_parts();
                proof {
                    let results = self@.results;
                    assert forall|i: int| 0 <= i < results.len() implies ((
                    #[trigger] results[i]) matches Some(r) && r.part_number == i + 1) by {
                        assert(self@.parts[i] is Succeeded);
                    }
                    lemma_recorded_complete(results);
                    lemma_recorded_ascending(results);
                    assert forall|i: int| 0 <= i < list@.len() implies (
                    #[trigger] list@[i]).part_number == i + 1 && list@[i].remote_identifier@
                        == results[i]->Some_0.remote_identifier@ by {
                        assert(completed_view(list@)[i] == recorded(results)[i]);
                    }
                }
                Some(list)
            },
            _ => None,
        }
    }
}

} // verus!
