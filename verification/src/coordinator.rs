//! The transfer coordinator: from an opened source to a completed transfer or
//! one structured failure.
//!
//! Like the scheduler it drives, the coordinator is a state machine: the
//! driver reports what the remote side and the source did, the coordinator
//! answers with what to do next. It sees to it that a remote session is
//! opened before any part is submitted and closed, by completion or by
//! abort, before the transfer ends.

use vstd::prelude::*;
use crate::checksum::{ChecksumManager, digests_agree};
use crate::error::{ErrorKind, TransferError};
use crate::planner::{PlannerConfig, plan_for, plan_for_outcome};
use crate::scheduler::{
    Action, CompletedPart, Event, Phase, Scheduler, SchedulerConfig, TransferStateView,
    ascending, completed_view, consistent, initial, next, recorded,
};
use crate::types::{Digest, PartResult, SizeHint, same_digest};

verus! {

/// Where the coordinator stands.
#[derive(Clone, Copy, Debug, PartialEq, Eq, Structural)]
pub enum Stage {
    /// The remote session was asked for; no part is submitted before it
    /// exists.
    AwaitingSession,
    /// The scheduler is moving parts, or winding them down.
    Transferring,
    /// Every part was moved; the source is held against its snapshot once
    /// more before the transfer is finalized.
    Verifying,
    /// The remote side was asked to complete the session.
    Completing,
    /// The remote side was asked to abort the session.
    Aborting,
    /// The transfer has ended.
    Done,
}

/// What the driver reports to the coordinator.
#[derive(Debug)]
pub enum CoordinatorEvent {
    /// The remote session exists.
    SessionStarted,
    /// The remote session could not be opened.
    SessionStartFailed,
    /// The transport moved a part.
    PartSucceeded { result: PartResult },
    /// A part's attempt ended without moving it.
    PartFailed { part_number: u32, kind: ErrorKind },
    /// The delay before a part's next attempt has passed.
    BackoffElapsed { part_number: u32 },
    /// The source's size and checksum as they are now.
    SourceChecked { size: u64, checksum: Option<Digest> },
    /// The remote side completed the session.
    SessionCompleted,
    /// The remote side could not complete the session.
    SessionCompleteFailed,
    /// The remote session was aborted.
    SessionAborted,
    /// The caller cancelled, or the transfer's deadline passed.
    CancelRequested,
}

/// What the coordinator asks the driver to do.
#[derive(Clone, Copy, Debug, PartialEq, Eq, Structural)]
pub enum CoordinatorAction {
    /// Open the remote session, then report `SessionStarted` or
    /// `SessionStartFailed`.
    StartSession,
    /// Carry out the scheduler's action. Its `Finish` asks for nothing: what
    /// follows the scheduler's end is among the coordinator's own actions.
    Scheduler(Action),
    /// Take the source's size and checksum again and report `SourceChecked`.
    CheckSource,
    /// Complete the remote session with the coordinator's completion list,
    /// then report `SessionCompleted` or `SessionCompleteFailed`.
    CompleteSession,
    /// Abort the remote session, then report `SessionAborted`.
    AbortSession,
    /// The transfer has ended; its outcome can be read.
    Finish,
}

/// What a completed transfer reports.
#[derive(Debug)]
pub struct TransferSummary {
    pub bytes_transferred: u64,
    pub part_count: u32,
    pub checksum: Option<Digest>,
}

/// The coordinator's state, as plain values.
pub struct CoordinatorView {
    pub transfer: TransferStateView,
    pub limits: SchedulerConfig,
    pub snapshot_size: u64,
    pub snapshot_checksum: Option<Digest>,
    pub stage: Stage,
    pub session_open: bool,
    pub cancel_pending: bool,
    pub abort_requested: bool,
    pub failure: Option<TransferError>,
}

/// The scheduler's actions, each handed on as it is.
pub open spec fn lift(actions: Seq<Action>) -> Seq<CoordinatorAction> {
    Seq::new(actions.len(), |i: int| CoordinatorAction::Scheduler(actions[i]))
}

/// The scheduler event a coordinator event stands for, if it stands for one.
pub open spec fn forwarded(event: CoordinatorEvent) -> Option<Event> {
    match event {
        CoordinatorEvent::PartSucceeded { result } => Some(Event::PartSucceeded { result }),
        CoordinatorEvent::PartFailed { part_number, kind } => Some(
            Event::PartFailed { part_number, kind },
        ),
        CoordinatorEvent::BackoffElapsed { part_number } => Some(
            Event::BackoffElapsed { part_number },
        ),
        CoordinatorEvent::SessionAborted => Some(Event::SessionAborted),
        CoordinatorEvent::CancelRequested => Some(Event::CancelRequested),
        _ => None,
    }
}

/// What follows a step of the scheduler: its actions are handed on; once it
/// has moved every part the source is checked again, and once it has ended
/// in failure so has the transfer.
pub open spec fn after_scheduler(c: CoordinatorView, r: (TransferStateView, Seq<Action>)) -> (
    CoordinatorView,
    Seq<CoordinatorAction>,
) {
    let stepped = CoordinatorView {
        transfer: r.0,
        abort_requested: c.abort_requested || r.0.abort_issued,
        ..c
    };
    match r.0.phase {
        Phase::Completed => (
            CoordinatorView { stage: Stage::Verifying, ..stepped },
            lift(r.1).push(CoordinatorAction::CheckSource),
        ),
        Phase::Aborted => (
            CoordinatorView {
                stage: Stage::Done,
                session_open: false,
                failure: r.0.failure,
                ..stepped
            },
            lift(r.1).push(CoordinatorAction::Finish),
        ),
        Phase::Failed => (
            CoordinatorView { stage: Stage::Done, failure: r.0.failure, ..stepped },
            lift(r.1).push(CoordinatorAction::Finish),
        ),
        _ => (stepped, lift(r.1)),
    }
}

/// The transfer cannot go on: a remote session that is open is aborted
/// first, and without one the transfer ends at once.
pub open spec fn give_up(c: CoordinatorView, error: TransferError) -> (
    CoordinatorView,
    Seq<CoordinatorAction>,
) {
    if c.session_open {
        (
            CoordinatorView {
                stage: Stage::Aborting,
                abort_requested: true,
                failure: Some(error),
                ..c
            },
            seq![CoordinatorAction::AbortSession],
        )
    } else {
        (
            CoordinatorView { stage: Stage::Done, failure: Some(error), ..c },
            seq![CoordinatorAction::Finish],
        )
    }
}

/// The coordinator's transition function: the state after `event` and the
/// actions it calls for. An event that does not fit the stage changes
/// nothing.
pub open spec fn coordinate(c: CoordinatorView, event: CoordinatorEvent) -> (
    CoordinatorView,
    Seq<CoordinatorAction>,
) {
    match c.stage {
        Stage::AwaitingSession => match event {
            CoordinatorEvent::SessionStarted => {
                let opened = CoordinatorView { session_open: true, ..c };
                if c.cancel_pending {
                    give_up(
                        opened,
                        TransferError { kind: ErrorKind::Cancelled, part_number: None },
                    )
                } else {
                    after_scheduler(
                        CoordinatorView { stage: Stage::Transferring, ..opened },
                        next(c.transfer, c.limits, Event::Start),
                    )
                }
            },
            CoordinatorEvent::SessionStartFailed => give_up(
                c,
                TransferError {
                    kind: if c.cancel_pending {
                        ErrorKind::Cancelled
                    } else {
                        ErrorKind::SessionError
                    },
                    part_number: None,
                },
            ),
            CoordinatorEvent::CancelRequested => (
                CoordinatorView { cancel_pending: true, ..c },
                Seq::empty(),
            ),
            _ => (c, Seq::empty()),
        },
        Stage::Transferring => match forwarded(event) {
            Some(e) => after_scheduler(c, next(c.transfer, c.limits, e)),
            None => (c, Seq::empty()),
        },
        Stage::Verifying => match event {
            CoordinatorEvent::SourceChecked { size, checksum } => {
                if c.snapshot_size == size && same_digest(c.snapshot_checksum, checksum) {
                    if c.session_open {
                        (
                            CoordinatorView { stage: Stage::Completing, ..c },
                            seq![CoordinatorAction::CompleteSession],
                        )
                    } else {
                        (
                            CoordinatorView { stage: Stage::Done, ..c },
                            seq![CoordinatorAction::Finish],
                        )
                    }
                } else {
                    give_up(c, TransferError { kind: ErrorKind::SourceMutated, part_number: None })
                }
            },
            CoordinatorEvent::CancelRequested => give_up(
                c,
                TransferError { kind: ErrorKind::Cancelled, part_number: None },
            ),
            _ => (c, Seq::empty()),
        },
        Stage::Completing => match event {
            CoordinatorEvent::SessionCompleted => (
                CoordinatorView { stage: Stage::Done, session_open: false, ..c },
                seq![CoordinatorAction::Finish],
            ),
            CoordinatorEvent::SessionCompleteFailed => give_up(
                c,
                TransferError { kind: ErrorKind::SessionError, part_number: None },
            ),
            _ => (c, Seq::empty()),
        },
        Stage::Aborting => match event {
            CoordinatorEvent::SessionAborted => (
                CoordinatorView { stage: Stage::Done, session_open: false, ..c },
                seq![CoordinatorAction::Finish],
            ),
            _ => (c, Seq::empty()),
        },
        Stage::Done => (c, Seq::empty()),
    }
}

/// What each stage says of the rest of the state. In particular: no part is
/// submitted before the session exists, the session is open exactly while a
/// multipart transfer is under way, and it is closed once the transfer has
/// ended.
pub open spec fn orderly(c: CoordinatorView) -> bool {
    &&& consistent(c.transfer, c.limits)
    &&& match c.stage {
        Stage::AwaitingSession => {
            &&& c.transfer.phase == Phase::Planning
            &&& !c.session_open
            &&& !c.transfer.plan.simple
            &&& c.failure is None
            &&& !c.abort_requested
        },
        Stage::Transferring => {
            &&& c.transfer.phase == Phase::Running || c.transfer.phase == Phase::Aborting
            &&& c.session_open == !c.transfer.plan.simple
            &&& c.failure is None
            &&& c.abort_requested == c.transfer.abort_issued
        },
        Stage::Verifying => {
            &&& c.transfer.phase == Phase::Completed
            &&& c.session_open == !c.transfer.plan.simple
            &&& c.failure is None
            &&& !c.abort_requested
        },
        Stage::Completing => {
            &&& c.transfer.phase == Phase::Completed
            &&& c.session_open
            &&& c.failure is None
            &&& !c.abort_requested
        },
        Stage::Aborting => {
            &&& c.session_open
            &&& c.failure is Some
            &&& c.abort_requested
            &&& !c.transfer.abort_issued
        },
        Stage::Done => {
            &&& !c.session_open
            &&& c.failure is None ==> c.transfer.phase == Phase::Completed && !c.abort_requested
        },
    }
}

/// How a transfer starts: with the size the source reports and the limits it
/// is to respect. A source with no upper bound on its size cannot be
/// planned; limits that cannot be honoured are refused; an object that does
/// not fit the part limits is not supported. A multipart transfer opens its
/// session first, a single operation starts at once.
pub open spec fn begin_outcome(
    upper_bound: Option<u64>,
    checksum: Option<Digest>,
    planner: PlannerConfig,
    limits: SchedulerConfig,
) -> Result<(CoordinatorView, Seq<CoordinatorAction>), TransferError> {
    match plan_for_outcome(upper_bound, planner) {
        Err(e) => Err(e),
        Ok(layout) => {
            if !limits.valid() {
                Err(TransferError { kind: ErrorKind::InvalidConfiguration, part_number: None })
            } else {
                let fresh = CoordinatorView {
                    transfer: initial(layout),
                    limits,
                    snapshot_size: layout.total_size as u64,
                    snapshot_checksum: checksum,
                    stage: Stage::AwaitingSession,
                    session_open: false,
                    cancel_pending: false,
                    abort_requested: false,
                    failure: None,
                };
                if layout.simple {
                    Ok(
                        after_scheduler(
                            CoordinatorView { stage: Stage::Transferring, ..fresh },
                            next(initial(layout), limits, Event::Start),
                        ),
                    )
                } else {
                    Ok((fresh, seq![CoordinatorAction::StartSession]))
                }
            }
        },
    }
}

/// What the transfer has come to: nothing while it is under way, then the
/// failure that ended it, or none.
pub open spec fn outcome_of(c: CoordinatorView) -> Option<Option<TransferError>> {
    if c.stage == Stage::Done {
        Some(c.failure)
    } else {
        None
    }
}

/// Drives one transfer from an opened source to its end.
#[derive(Debug)]
pub struct Coordinator {
    scheduler: Scheduler,
    checksums: ChecksumManager,
    stage: Stage,
    session_open: bool,
    cancel_pending: bool,
    abort_requested: bool,
    failure: Option<TransferError>,
}

impl View for Coordinator {
    type V = CoordinatorView;

    closed spec fn view(&self) -> CoordinatorView {
        CoordinatorView {
            transfer: self.scheduler@,
            limits: self.scheduler.spec_config(),
            snapshot_size: self.checksums.size,
            snapshot_checksum: self.checksums.checksum,
            stage: self.stage,
            session_open: self.session_open,
            cancel_pending: self.cancel_pending,
            abort_requested: self.abort_requested,
            failure: self.failure,
        }
    }
}

/// Hands the scheduler's actions on.
fn lift_actions(actions: Vec<Action>) -> (out: Vec<CoordinatorAction>)
    ensures
        out@ == lift(actions@),
{
    let mut out: Vec<CoordinatorAction> = Vec::new();
    let mut index: usize = 0;
    while index < actions.len()
        invariant
            index <= actions.len(),
            out@.len() == index,
            forall|k: int| 0 <= k < index ==> out@[k] == CoordinatorAction::Scheduler(actions@[k]),
        decreases actions.len() - index,
    {
        out.push(CoordinatorAction::Scheduler(actions[index]));
        index = index + 1;
    }
    assert(out@ =~= lift(actions@));
    out
}

/// The scheduler event a coordinator event stands for, if it stands for one.
fn forward(event: CoordinatorEvent) -> (r: Option<Event>)
    ensures
        r == forwarded(event),
{
    match event {
        CoordinatorEvent::PartSucceeded { result } => Some(Event::PartSucceeded { result }),
        CoordinatorEvent::PartFailed { part_number, kind } => Some(
            Event::PartFailed { part_number, kind },
        ),
        CoordinatorEvent::BackoffElapsed { part_number } => Some(
            Event::BackoffElapsed { part_number },
        ),
        CoordinatorEvent::SessionAborted => Some(Event::SessionAborted),
        CoordinatorEvent::CancelRequested => Some(Event::CancelRequested),
        _ => None,
    }
}

/// A step of the scheduler from a state in which parts are under way, or
/// from its start, keeps the plan, and it ends in plain failure only where
/// there is no session to abort.
pub proof fn lemma_scheduler_step(s: TransferStateView, limits: SchedulerConfig, event: Event)
    requires
        consistent(s, limits),
    ensures
        consistent(next(s, limits, event).0, limits),
        next(s, limits, event).0.plan == s.plan,
        s.phase == Phase::Running || s.phase == Phase::Aborting ==> next(s, limits, event).0.phase
            != Phase::Planning && (next(s, limits, event).0.phase == Phase::Failed
            ==> s.plan.simple),
        s.phase == Phase::Planning && event is Start ==> next(s, limits, event).0.phase
            == Phase::Running || next(s, limits, event).0.phase == Phase::Completed,
{
    crate::scheduler_laws::lemma_next_keeps_consistency(s, limits, event);
}

impl Coordinator {
    #[verifier::type_invariant]
    spec fn well_formed(&self) -> bool {
        orderly(self@)
    }

    /// Takes the scheduler's answer in: hands its actions on and moves to
    /// the stage its phase calls for.
    fn absorb(
        stepped: (Scheduler, Vec<Action>),
        checksums: ChecksumManager,
        session_open: bool,
        cancel_pending: bool,
        abort_requested: bool,
        Ghost(before): Ghost<CoordinatorView>,
    ) -> (r: (Coordinator, Vec<CoordinatorAction>))
        requires
            before.stage == Stage::Transferring,
            before.limits == stepped.0.spec_config(),
            before.snapshot_size == checksums.size,
            before.snapshot_checksum == checksums.checksum,
            before.session_open == session_open,
            before.cancel_pending == cancel_pending,
            before.abort_requested == abort_requested,
            before.failure is None,
            consistent(stepped.0@, before.limits),
            session_open == !stepped.0@.plan.simple,
            stepped.0@.phase != Phase::Planning,
            stepped.0@.phase == Phase::Failed ==> stepped.0@.plan.simple,
            abort_requested ==> stepped.0@.abort_issued,
        ensures
            r.0@ == after_scheduler(before, (stepped.0@, stepped.1@)).0,
            r.1@ == after_scheduler(before, (stepped.0@, stepped.1@)).1,
            orderly(r.0@),
    {
        let (scheduler, actions) = stepped;
        let mut out = lift_actions(actions);
        let phase = scheduler.state().phase();
        let abort_requested = abort_requested || scheduler.state().abort_issued();
        let scheduler_failure = scheduler.state().failure();
        let coordinator = match phase {
            Phase::Completed => {
                out.push(CoordinatorAction::CheckSource);
                Coordinator {
                    scheduler,
                    checksums,
                    stage: Stage::Verifying,
                    session_open,
                    cancel_pending,
                    abort_requested,
                    failure: None,
                }
            },
            Phase::Aborted => {
                out.push(CoordinatorAction::Finish);
                Coordinator {
                    scheduler,
                    checksums,
                    stage: Stage::Done,
                    session_open: false,
                    cancel_pending,
                    abort_requested,
                    failure: scheduler_failure,
                }
            },
            Phase::Failed => {
                out.push(CoordinatorAction::Finish);
                Coordinator {
                    scheduler,
                    checksums,
                    stage: Stage::Done,
                    session_open,
                    cancel_pending,
                    abort_requested,
                    failure: scheduler_failure,
                }
            },
            _ => Coordinator {
                scheduler,
                checksums,
                stage: Stage::Transferring,
                session_open,
                cancel_pending,
                abort_requested,
                failure: None,
            },
        };
        (coordinator, out)
    }

    /// Ends the transfer in failure, aborting the session first where one is
    /// open.
    fn give_up(
        scheduler: Scheduler,
        checksums: ChecksumManager,
        session_open: bool,
        cancel_pending: bool,
        abort_requested: bool,
        error: TransferError,
        Ghost(before): Ghost<CoordinatorView>,
    ) -> (r: (Coordinator, Vec<CoordinatorAction>))
        requires
            before.transfer == scheduler@,
            before.limits == scheduler.spec_config(),
            before.snapshot_size == checksums.size,
            before.snapshot_checksum == checksums.checksum,
            before.session_open == session_open,
            before.cancel_pending == cancel_pending,
            before.abort_requested == abort_requested,
            consistent(scheduler@, scheduler.spec_config()),
            !scheduler@.abort_issued,
        ensures
            r.0@ == give_up(before, error).0,
            r.1@ == give_up(before, error).1,
            orderly(r.0@),
    {
        let mut out: Vec<CoordinatorAction> = Vec::new();
        if session_open {
            out.push(CoordinatorAction::AbortSession);
            (
                Coordinator {
                    scheduler,
                    checksums,
                    stage: Stage::Aborting,
                    session_open,
                    cancel_pending,
                    abort_requested: true,
                    failure: Some(error),
                },
                out,
            )
        } else {
            out.push(CoordinatorAction::Finish);
            (
                Coordinator {
                    scheduler,
                    checksums,
                    stage: Stage::Done,
                    session_open,
                    cancel_pending,
                    abort_requested,
                    failure: Some(error),
                },
                out,
            )
        }
    }

    /// Ends the transfer in failure from a stage in which the scheduler is at
    /// rest.
    fn fail(self, error: TransferError) -> (r: (Coordinator, Vec<CoordinatorAction>))
        requires
            !self@.transfer.abort_issued,
        ensures
            r.0@ == give_up(self@, error).0,
            r.1@ == give_up(self@, error).1,
            orderly(r.0@),
    {
        proof {
            use_type_invariant(&self);
        }
        let ghost before = self@;
        let Coordinator {
            scheduler,
            checksums,
            stage,
            session_open,
            cancel_pending,
            abort_requested,
            failure,
        } = self;
        Coordinator::give_up(
            scheduler,
            checksums,
            session_open,
            cancel_pending,
            abort_requested,
            error,
            Ghost(before),
        )
    }

    /// Starts a transfer of a source that reports `hint` as its size and
    /// `checksum` as its content checksum.
    pub fn begin(
        hint: &SizeHint,
        checksum: Option<Digest>,
        planner: &PlannerConfig,
        limits: SchedulerConfig,
    ) -> (r: Result<(Coordinator, Vec<CoordinatorAction>), TransferError>)
        ensures
            match r {
                Ok(started) => begin_outcome(hint.spec_upper(), checksum, *planner, limits) == Ok::<
                    (CoordinatorView, Seq<CoordinatorAction>),
                    TransferError,
                >((started.0@, started.1@)) && orderly(started.0@),
                Err(e) => begin_outcome(hint.spec_upper(), checksum, *planner, limits) == Err::<
                    (CoordinatorView, Seq<CoordinatorAction>),
                    TransferError,
                >(e),
            },
    {
        let layout = match plan_for(hint, planner) {
            Ok(layout) => layout,
            Err(e) => {
                return Err(e);
            },
        };
        let size = layout.total_size();
        let simple = layout.is_simple();
        let ghost layout_view = layout@;
        let scheduler = match Scheduler::new(layout, limits) {
            Ok(scheduler) => scheduler,
            Err(e) => {
                return Err(e);
            },
        };
        let checksums = ChecksumManager::snapshot(size, checksum);
        if simple {
            let ghost before = CoordinatorView {
                transfer: initial(layout_view),
                limits,
                snapshot_size: size,
                snapshot_checksum: checksum,
                stage: Stage::Transferring,
                session_open: false,
                cancel_pending: false,
                abort_requested: false,
                failure: None,
            };
            let stepped = scheduler.step(Event::Start);
            proof {
                lemma_scheduler_step(initial(layout_view), limits, Event::Start);
            }
            Ok(Coordinator::absorb(stepped, checksums, false, false, false, Ghost(before)))
        } else {
            let mut out: Vec<CoordinatorAction> = Vec::new();
            out.push(CoordinatorAction::StartSession);
            Ok(
                (
                    Coordinator {
                        scheduler,
                        checksums,
                        stage: Stage::AwaitingSession,
                        session_open: false,
                        cancel_pending: false,
                        abort_requested: false,
                        failure: None,
                    },
                    out,
                ),
            )
        }
    }

    /// Takes one event and answers with the coordinator in its new state and
    /// the actions the driver is to carry out, in order.
    pub fn step(self, event: CoordinatorEvent) -> (r: (Coordinator, Vec<CoordinatorAction>))
        ensures
            r.0@ == coordinate(self@, event).0,
            r.1@ == coordinate(self@, event).1,
            orderly(self@),
            orderly(r.0@),
    {
        proof {
            use_type_invariant(&self);
        }
        let ghost before = self@;
        match self.stage {
            Stage::AwaitingSession => match event {
                CoordinatorEvent::SessionStarted => {
                    let Coordinator {
                        scheduler,
                        checksums,
                        stage,
                        session_open,
                        cancel_pending,
                        abort_requested,
                        failure,
                    } = self;
                    if cancel_pending {
                        Coordinator::give_up(
                            scheduler,
                            checksums,
                            true,
                            cancel_pending,
                            abort_requested,
                            TransferError::whole(ErrorKind::Cancelled),
                            Ghost(CoordinatorView { session_open: true, ..before }),
                        )
                    } else {
                        let stepped = scheduler.step(Event::Start);
                        proof {
                            lemma_scheduler_step(before.transfer, before.limits, Event::Start);
                        }
                        Coordinator::absorb(
                            stepped,
                            checksums,
                            true,
                            cancel_pending,
                            abort_requested,
                            Ghost(
                                CoordinatorView {
                                    stage: Stage::Transferring,
                                    session_open: true,
                                    ..before
                                },
                            ),
                        )
                    }
                },
                CoordinatorEvent::SessionStartFailed => {
                    let kind = if self.cancel_pending {
                        ErrorKind::Cancelled
                    } else {
                        ErrorKind::SessionError
                    };
                    self.fail(TransferError::whole(kind))
                },
                CoordinatorEvent::CancelRequested => {
                    let Coordinator {
                        scheduler,
                        checksums,
                        stage,
                        session_open,
                        cancel_pending,
                        abort_requested,
                        failure,
                    } = self;
                    (
                        Coordinator {
                            scheduler,
                            checksums,
                            stage,
                            session_open,
                            cancel_pending: true,
                            abort_requested,
                            failure,
                        },
                        Vec::new(),
                    )
                },
                _ => (self, Vec::new()),
            },
            Stage::Transferring => match forward(event) {
                Some(scheduler_event) => {
                    let Coordinator {
                        scheduler,
                        checksums,
                        stage,
                        session_open,
                        cancel_pending,
                        abort_requested,
                        failure,
                    } = self;
                    let stepped = scheduler.step(scheduler_event);
                    proof {
                        lemma_scheduler_step(before.transfer, before.limits, scheduler_event);
                        crate::scheduler_laws::lemma_abort_requested_once(
                            before.transfer,
                            before.limits,
                            scheduler_event,
                        );
                    }
                    Coordinator::absorb(
                        stepped,
                        checksums,
                        session_open,
                        cancel_pending,
                        abort_requested,
                        Ghost(before),
                    )
                },
                None => (self, Vec::new()),
            },
            Stage::Verifying => match event {
                CoordinatorEvent::SourceChecked { size, checksum } => {
                    if self.checksums.size == size && digests_agree(
                        &self.checksums.checksum,
                        &checksum,
                    ) {
                        let Coordinator {
                            scheduler,
                            checksums,
                            stage,
                            session_open,
                            cancel_pending,
                            abort_requested,
                            failure,
                        } = self;
                        let mut out: Vec<CoordinatorAction> = Vec::new();
                        if session_open {
                            out.push(CoordinatorAction::CompleteSession);
                            (
                                Coordinator {
                                    scheduler,
                                    checksums,
                                    stage: Stage::Completing,
                                    session_open,
                                    cancel_pending,
                                    abort_requested,
                                    failure,
                                },
                                out,
                            )
                        } else {
                            out.push(CoordinatorAction::Finish);
                            (
                                Coordinator {
                                    scheduler,
                                    checksums,
                                    stage: Stage::Done,
                                    session_open,
                                    cancel_pending,
                                    abort_requested,
                                    failure,
                                },
                                out,
                            )
                        }
                    } else {
                        self.fail(TransferError::whole(ErrorKind::SourceMutated))
                    }
                },
                CoordinatorEvent::CancelRequested => self.fail(
                    TransferError::whole(ErrorKind::Cancelled),
                ),
                _ => (self, Vec::new()),
            },
            Stage::Completing => match event {
                CoordinatorEvent::SessionCompleted => {
                    let Coordinator {
                        scheduler,
                        checksums,
                        stage,
                        session_open,
                        cancel_pending,
                        abort_requested,
                        failure,
                    } = self;
                    let mut out: Vec<CoordinatorAction> = Vec::new();
                    out.push(CoordinatorAction::Finish);
                    (
                        Coordinator {
                            scheduler,
                            checksums,
                            stage: Stage::Done,
                            session_open: false,
                            cancel_pending,
                            abort_requested,
                            failure,
                        },
                        out,
                    )
                },
                CoordinatorEvent::SessionCompleteFailed => self.fail(
                    TransferError::whole(ErrorKind::SessionError),
                ),
                _ => (self, Vec::new()),
            },
            Stage::Aborting => match event {
                CoordinatorEvent::SessionAborted => {
                    let Coordinator {
                        scheduler,
                        checksums,
                        stage,
                        session_open,
                        cancel_pending,
                        abort_requested,
                        failure,
                    } = self;
                    let mut out: Vec<CoordinatorAction> = Vec::new();
                    out.push(CoordinatorAction::Finish);
                    (
                        Coordinator {
                            scheduler,
                            checksums,
                            stage: Stage::Done,
                            session_open: false,
                            cancel_pending,
                            abort_requested,
                            failure,
                        },
                        out,
                    )
                },
                _ => (self, Vec::new()),
            },
            Stage::Done => (self, Vec::new()),
        }
    }

    /// The stage the coordinator is in.
    pub fn stage(&self) -> (r: Stage)
        ensures
            r == self@.stage,
            orderly(self@),
    {
        proof {
            use_type_invariant(self);
        }
        self.stage
    }

    /// The scheduler that moves the parts.
    pub fn scheduler(&self) -> (r: &Scheduler)
        ensures
            r@ == self@.transfer,
            r.spec_config() == self@.limits,
    {
        &self.scheduler
    }

    /// Whether the remote session is open.
    pub fn session_open(&self) -> (r: bool)
        ensures
            r == self@.session_open,
    {
        self.session_open
    }

    /// What the driver reports before it submits a part: nothing where the
    /// source is as it was when the transfer was planned, else the failure of
    /// the part as `SourceMutated`, which ends the transfer.
    pub fn submission_check(&self, part_number: u32, size: u64, checksum: &Option<Digest>) -> (r:
        Option<CoordinatorEvent>)
        ensures
            r is None <==> self@.snapshot_size == size && same_digest(
                self@.snapshot_checksum,
                *checksum,
            ),
            r matches Some(event) ==> event == (CoordinatorEvent::PartFailed {
                part_number,
                kind: ErrorKind::SourceMutated,
            }),
    {
        match self.checksums.validate(size, checksum) {
            Ok(()) => None,
            Err(_) => Some(
                CoordinatorEvent::PartFailed { part_number, kind: ErrorKind::SourceMutated },
            ),
        }
    }

    /// The parts to hand to the remote side on completion: once every part
    /// was moved, one entry per part in ascending part-number order; before
    /// that, nothing.
    pub fn completion_list(&self) -> (r: Option<Vec<CompletedPart>>)
        ensures
            r is Some <==> self@.transfer.phase == Phase::Completed,
            r matches Some(list) ==> {
                &&& completed_view(list@) == recorded(self@.transfer.results)
                &&& list@.len() == self@.transfer.plan.parts.len()
                &&& ascending(completed_view(list@))
                &&& forall|i: int|
                    0 <= i < list@.len() ==> (#[trigger] list@[i]).part_number == i + 1
            },
    {
        self.scheduler.completion_list()
    }

    /// What the transfer has come to: nothing while it is under way; once it
    /// has ended, the failure that ended it, or the summary of a transfer
    /// that moved every part of a source that did not change.
    pub fn outcome(&self) -> (r: Option<Result<TransferSummary, TransferError>>)
        ensures
            r is Some <==> self@.stage == Stage::Done,
            r matches Some(Err(e)) ==> self@.failure == Some(e),
            r matches Some(Ok(summary)) ==> {
                &&& self@.failure is None
                &&& self@.transfer.phase == Phase::Completed
                &&& summary.bytes_transferred == self@.transfer.plan.total_size
                &&& summary.part_count == self@.transfer.plan.parts.len()
                &&& same_digest(summary.checksum, self@.snapshot_checksum)
            },
    {
        proof {
            use_type_invariant(self);
        }
        match self.stage {
            Stage::Done => match self.failure {
                Some(e) => Some(Err(e)),
                None => {
                    let layout = self.scheduler.state().plan();
                    let checksum = match &self.checksums.checksum {
                        Some(digest) => Some(digest.clone()),
                        None => None,
                    };
                    let count = layout.parts().len();
                    proof {
                        let parts = layout@.parts;
                        assert(parts[count - 1].part_number == count);
                    }
                    Some(
                        Ok(
                            TransferSummary {
                                bytes_transferred: layout.total_size(),
                                part_count: count as u32,
                                checksum,
                            },
                        ),
                    )
                },
            },
            _ => None,
        }
    }
}

/// What the driver reports once the transport has moved a part: the part's
/// result where the digest the transport reported agrees with the one taken
/// locally, else the part's failure as `PartChecksumMismatch`, which may be
/// retried.
pub fn part_report(
    part_number: u32,
    remote_identifier: String,
    local: Digest,
    reported: &Option<Digest>,
    bytes_transferred: u64,
) -> (event: CoordinatorEvent)
    ensures
        (reported matches Some(d) ==> d@ == local@) ==> event == (CoordinatorEvent::PartSucceeded {
            result: PartResult {
                part_number,
                remote_identifier,
                checksum: Some(local),
                bytes_transferred,
            },
        }),
        !(reported matches Some(d) ==> d@ == local@) ==> event == (CoordinatorEvent::PartFailed {
            part_number,
            kind: ErrorKind::PartChecksumMismatch,
        }),
{
    match ChecksumManager::verify_part(part_number, &local, reported) {
        Ok(()) => CoordinatorEvent::PartSucceeded {
            result: PartResult {
                part_number,
                remote_identifier,
                checksum: Some(local),
                bytes_transferred,
            },
        },
        Err(_) => CoordinatorEvent::PartFailed {
            part_number,
            kind: ErrorKind::PartChecksumMismatch,
        },
    }
}

/// Whether the actions ask for the abort of the session, by the scheduler's
/// word or by the coordinator's own.
pub open spec fn asks_abort(actions: Seq<CoordinatorAction>) -> bool {
    actions.contains(CoordinatorAction::AbortSession) || actions.contains(
        CoordinatorAction::Scheduler(Action::AbortSession),
    )
}

/// The session is completed only after every part was moved and the source
/// was found unchanged, never after a failure and never after an abort was
/// asked for.
pub proof fn lemma_completion_is_earned(c: CoordinatorView, event: CoordinatorEvent)
    requires
        orderly(c),
        coordinate(c, event).1.contains(CoordinatorAction::CompleteSession),
    ensures
        c.stage == Stage::Verifying,
        c.transfer.phase == Phase::Completed,
        c.transfer.failure is None,
        c.failure is None,
        !c.abort_requested,
        event matches CoordinatorEvent::SourceChecked { size, checksum } && size == c.snapshot_size
            && same_digest(c.snapshot_checksum, checksum),
        coordinate(c, event).0.stage == Stage::Completing,
{
    let r = coordinate(c, event);
    let at = choose|k: int| 0 <= k < r.1.len() && r.1[k] == CoordinatorAction::CompleteSession;
    assert(r.1[at] == CoordinatorAction::CompleteSession);
    match c.stage {
        Stage::AwaitingSession => {
            if event is SessionStarted && !c.cancel_pending {
                lemma_lifted(c, next(c.transfer, c.limits, Event::Start), at);
            }
        },
        Stage::Transferring => {
            if let Some(e) = forwarded(event) {
                lemma_lifted(c, next(c.transfer, c.limits, e), at);
            }
        },
        _ => {},
    }
}

/// What follows a step of the scheduler: its actions, handed on, and then at
/// most a check of the source or the end of the transfer.
proof fn lemma_lifted(c: CoordinatorView, r: (TransferStateView, Seq<Action>), at: int)
    requires
        0 <= at < after_scheduler(c, r).1.len(),
    ensures
        after_scheduler(c, r).1[at] is Scheduler || after_scheduler(c, r).1[at]
            == CoordinatorAction::CheckSource || after_scheduler(c, r).1[at]
            == CoordinatorAction::Finish,
        after_scheduler(c, r).1[at] is Scheduler ==> at < r.1.len() && after_scheduler(c, r).1[at]
            == CoordinatorAction::Scheduler(r.1[at]),
{
}

/// A source that changed after it was planned fails the transfer: when the
/// last check before the end finds a different size or checksum, the
/// transfer is given up as `SourceMutated`, and the session is aborted, not
/// completed.
pub proof fn lemma_mutated_source_fails(
    c: CoordinatorView,
    size: u64,
    checksum: Option<Digest>,
)
    requires
        orderly(c),
        c.stage == Stage::Verifying,
        !(size == c.snapshot_size && same_digest(c.snapshot_checksum, checksum)),
    ensures
        ({
            let r = coordinate(c, CoordinatorEvent::SourceChecked { size, checksum });
            &&& r.0.failure == Some(
                TransferError { kind: ErrorKind::SourceMutated, part_number: None },
            )
            &&& !r.1.contains(CoordinatorAction::CompleteSession)
            &&& r.0.stage == (if c.session_open {
                Stage::Aborting
            } else {
                Stage::Done
            })
            &&& r.1 == (if c.session_open {
                seq![CoordinatorAction::AbortSession]
            } else {
                seq![CoordinatorAction::Finish]
            })
        }),
{
    let r = coordinate(c, CoordinatorEvent::SourceChecked { size, checksum });
    if r.1.contains(CoordinatorAction::CompleteSession) {
        let at = choose|k: int| 0 <= k < r.1.len() && r.1[k] == CoordinatorAction::CompleteSession;
        assert(r.1[at] == CoordinatorAction::CompleteSession);
    }
}

/// The abort of the session is asked for at most once in the life of a
/// transfer: it is asked for exactly when the flag that records the request
/// is raised, and the flag is never lowered.
pub proof fn lemma_session_aborted_once(c: CoordinatorView, event: CoordinatorEvent)
    requires
        orderly(c),
    ensures
        c.abort_requested ==> coordinate(c, event).0.abort_requested,
        asks_abort(coordinate(c, event).1) <==> !c.abort_requested && coordinate(
            c,
            event,
        ).0.abort_requested,
{
    let r = coordinate(c, event);
    let own = CoordinatorAction::AbortSession;
    let handed = CoordinatorAction::Scheduler(Action::AbortSession);
    match c.stage {
        Stage::AwaitingSession => {
            if event is SessionStarted && !c.cancel_pending {
                lemma_abort_handed_on(
                    CoordinatorView { stage: Stage::Transferring, session_open: true, ..c },
                    Event::Start,
                );
            } else if event is SessionStarted {
                assert(r.1[0] == own);
            }
        },
        Stage::Transferring => {
            if let Some(e) = forwarded(event) {
                lemma_abort_handed_on(c, e);
            }
        },
        Stage::Verifying => {
            if r.0.stage == Stage::Aborting {
                assert(r.1[0] == own);
            }
        },
        Stage::Completing => {
            if r.0.stage == Stage::Aborting {
                assert(r.1[0] == own);
            }
        },
        _ => {},
    }
}

/// A step of the scheduler asks for the abort through the coordinator
/// exactly when the scheduler raises its own flag.
proof fn lemma_abort_handed_on(c: CoordinatorView, event: Event)
    requires
        c.abort_requested == c.transfer.abort_issued,
    ensures
        ({
            let r = after_scheduler(c, next(c.transfer, c.limits, event));
            &&& c.abort_requested ==> r.0.abort_requested
            &&& asks_abort(r.1) <==> !c.abort_requested && r.0.abort_requested
        }),
{
    let stepped = next(c.transfer, c.limits, event);
    let r = after_scheduler(c, stepped);
    crate::scheduler_laws::lemma_abort_requested_once(c.transfer, c.limits, event);
    let own = CoordinatorAction::AbortSession;
    let handed = CoordinatorAction::Scheduler(Action::AbortSession);
    if r.1.contains(own) {
        let at = choose|k: int| 0 <= k < r.1.len() && r.1[k] == own;
        lemma_lifted(c, stepped, at);
    }
    if r.1.contains(handed) {
        let at = choose|k: int| 0 <= k < r.1.len() && r.1[k] == handed;
        lemma_lifted(c, stepped, at);
        assert(stepped.1[at] == Action::AbortSession);
    }
    if stepped.1.contains(Action::AbortSession) {
        let at = choose|k: int| 0 <= k < stepped.1.len() && stepped.1[k] == Action::AbortSession;
        assert(r.1[at] == handed);
    }
}

/// Every step of the coordinator keeps its state orderly: whatever the
/// event, no part is submitted before the session exists, the session is
/// open exactly while a multipart transfer is under way, and a transfer that
/// ended without failure moved every part and never asked for an abort.
pub proof fn lemma_coordinate_keeps_order(c: CoordinatorView, event: CoordinatorEvent)
    requires
        orderly(c),
    ensures
        orderly(coordinate(c, event).0),
{
    match c.stage {
        Stage::AwaitingSession => {
            if event is SessionStarted && !c.cancel_pending {
                lemma_scheduler_step(c.transfer, c.limits, Event::Start);
            }
        },
        Stage::Transferring => {
            if let Some(e) = forwarded(event) {
                lemma_scheduler_step(c.transfer, c.limits, e);
                crate::scheduler_laws::lemma_abort_requested_once(c.transfer, c.limits, e);
            }
        },
        _ => {},
    }
}

/// The transfer ends only with its session closed: the end is announced
/// exactly when the last stage is reached, and there no session is open.
pub proof fn lemma_session_closed_at_end(c: CoordinatorView, event: CoordinatorEvent)
    requires
        orderly(c),
        c.stage != Stage::Done,
    ensures
        coordinate(c, event).1.contains(CoordinatorAction::Finish) <==> coordinate(
            c,
            event,
        ).0.stage == Stage::Done,
        coordinate(c, event).0.stage == Stage::Done ==> !coordinate(c, event).0.session_open,
{
    let r = coordinate(c, event);
    let finish = CoordinatorAction::Finish;
    lemma_coordinate_keeps_order(c, event);
    if r.1.contains(finish) {
        let at = choose|k: int| 0 <= k < r.1.len() && r.1[k] == finish;
        assert(r.1[at] == finish);
        match c.stage {
            Stage::AwaitingSession => {
                if event is SessionStarted && !c.cancel_pending {
                    lemma_finish_is_last(
                        CoordinatorView { stage: Stage::Transferring, session_open: true, ..c },
                        next(c.transfer, c.limits, Event::Start),
                        at,
                    );
                }
            },
            Stage::Transferring => {
                if let Some(e) = forwarded(event) {
                    lemma_finish_is_last(c, next(c.transfer, c.limits, e), at);
                }
            },
            _ => {},
        }
    }
    if r.0.stage == Stage::Done {
        assert(r.1[r.1.len() - 1] == finish);
    }
}

/// After a step of the scheduler, the end of the transfer is announced only
/// as the last action, and only where the scheduler has ended in failure.
proof fn lemma_finish_is_last(c: CoordinatorView, r: (TransferStateView, Seq<Action>), at: int)
    requires
        0 <= at < after_scheduler(c, r).1.len(),
        after_scheduler(c, r).1[at] == CoordinatorAction::Finish,
    ensures
        r.0.phase == Phase::Aborted || r.0.phase == Phase::Failed,
        after_scheduler(c, r).0.stage == Stage::Done,
{
}

/// Whether a failure was recorded, by the scheduler or by the coordinator.
pub open spec fn has_failed(c: CoordinatorView) -> bool {
    c.failure is Some || c.transfer.failure is Some
}

/// A transfer that recorded a failure is never completed: whatever the
/// event, the remote side is not asked to complete the session, and the
/// failure stays on record.
pub proof fn lemma_no_completion_after_failure(c: CoordinatorView, event: CoordinatorEvent)
    requires
        orderly(c),
        has_failed(c),
    ensures
        !coordinate(c, event).1.contains(CoordinatorAction::CompleteSession),
        has_failed(coordinate(c, event).0),
        coordinate(c, event).0.stage != Stage::Completing,
{
    if coordinate(c, event).1.contains(CoordinatorAction::CompleteSession) {
        lemma_completion_is_earned(c, event);
    }
    if c.stage == Stage::Transferring {
        if let Some(e) = forwarded(event) {
            crate::scheduler_laws::lemma_failure_is_final(c.transfer, c.limits, e);
        }
    }
}

/// The state a transfer is in after a run of events.
pub open spec fn coordinator_after(c: CoordinatorView, events: Seq<CoordinatorEvent>)
    -> CoordinatorView
    decreases events.len(),
{
    if events.len() == 0 {
        c
    } else {
        coordinate(coordinator_after(c, events.drop_last()), events.last()).0
    }
}

/// However events come in, the transfer stays orderly: parts are submitted
/// only once the session exists, no more than `concurrency_limit` of them are
/// in flight, and once the transfer has ended its session is closed. A
/// transfer that recorded a failure ends in that failure or a later one,
/// never in completion.
pub proof fn lemma_transfer_stays_orderly(c: CoordinatorView, events: Seq<CoordinatorEvent>)
    requires
        orderly(c),
    ensures
        orderly(coordinator_after(c, events)),
        coordinator_after(c, events).stage == Stage::Done ==> !coordinator_after(
            c,
            events,
        ).session_open,
        has_failed(c) ==> has_failed(coordinator_after(c, events)) && coordinator_after(
            c,
            events,
        ).stage != Stage::Completing,
    decreases events.len(),
{
    if events.len() > 0 {
        let before = coordinator_after(c, events.drop_last());
        lemma_transfer_stays_orderly(c, events.drop_last());
        lemma_coordinate_keeps_order(before, events.last());
        if has_failed(c) {
            lemma_no_completion_after_failure(before, events.last());
        }
    } else if has_failed(c) {
        assert(c.stage != Stage::Completing);
    }
}

} // verus!
