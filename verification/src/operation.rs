//! One evidence-gated control of the canonical X3800H session, as a step
//! function: admission, a targeted preflight observation, a single dispatch,
//! and a confirmation window. The session performs each action and hands back
//! what happened; the step decides what comes next and how the control ends.
use crate::domain::profile::{CoreField, ReceiverIntent, intent_field};
use crate::protocol::avr::command::{AvrCommand, AvrProtocolError};
use crate::protocol::avr::x3800h::{core_query_text, encode, intent_text, query};
use crate::text::{chars_of, push_str, string_of};
use vstd::prelude::*;

verus! {

/// How certain it is that a control reached the receiver.
#[derive(Debug, Clone, Copy, PartialEq, Eq, Structural)]
pub enum DispatchCertainty {
    NotDispatched,
    Unknown,
    CompleteWrite,
}

/// How one control ended.
#[derive(Debug, Clone, PartialEq, Eq)]
pub enum OperationOutcome {
    Cancelled { operation: u64 },
    RejectedBeforeDispatch { operation: u64, reason: String },
    AlreadyObserved { operation: u64, observation: String },
    ObservedRequestedValue { operation: u64, dispatch: DispatchCertainty, observation: String },
    Indeterminate { operation: u64, dispatch: DispatchCertainty, reason: String },
}

pub enum OutcomeView {
    Cancelled(u64),
    RejectedBeforeDispatch(u64, Seq<char>),
    AlreadyObserved(u64, Seq<char>),
    ObservedRequestedValue(u64, DispatchCertainty, Seq<char>),
    Indeterminate(u64, DispatchCertainty, Seq<char>),
}

impl View for OperationOutcome {
    type V = OutcomeView;

    open spec fn view(&self) -> OutcomeView {
        match self {
            OperationOutcome::Cancelled { operation } => OutcomeView::Cancelled(*operation),
            OperationOutcome::RejectedBeforeDispatch { operation, reason } => OutcomeView::RejectedBeforeDispatch(*operation, reason@),
            OperationOutcome::AlreadyObserved { operation, observation } => OutcomeView::AlreadyObserved(*operation, observation@),
            OperationOutcome::ObservedRequestedValue { operation, dispatch, observation } => OutcomeView::ObservedRequestedValue(
                *operation,
                *dispatch,
                observation@,
            ),
            OperationOutcome::Indeterminate { operation, dispatch, reason } => OutcomeView::Indeterminate(*operation, *dispatch, reason@),
        }
    }
}

/// Where a control stands.
#[derive(Debug, Clone, PartialEq, Eq)]
pub enum OperatePhase {
    /// Not yet admitted.
    Admission,
    /// Waiting for the targeted observation before any write.
    Preflight,
    /// The command was handed to the session for its single write.
    Dispatching,
    /// The write failed part way (with this error); a read-only observation may still prove it applied.
    AmbiguousCheck(String),
    /// The write completed; waiting to observe the requested value.
    Confirming,
    Finished,
}

pub enum PhaseView {
    Admission,
    Preflight,
    Dispatching,
    AmbiguousCheck(Seq<char>),
    Confirming,
    Finished,
}

impl View for OperatePhase {
    type V = PhaseView;

    open spec fn view(&self) -> PhaseView {
        match self {
            OperatePhase::Admission => PhaseView::Admission,
            OperatePhase::Preflight => PhaseView::Preflight,
            OperatePhase::Dispatching => PhaseView::Dispatching,
            OperatePhase::AmbiguousCheck(e) => PhaseView::AmbiguousCheck(e@),
            OperatePhase::Confirming => PhaseView::Confirming,
            OperatePhase::Finished => PhaseView::Finished,
        }
    }
}

/// What became of the single write.
#[derive(Debug, Clone, PartialEq, Eq)]
pub enum DispatchResult {
    Written,
    /// The session refused the command before writing it.
    InvalidCommand(String),
    SessionStopped,
    /// The write began and failed; the error text.
    Failed(String),
}

/// What the session reports back to the control.
#[derive(Debug, PartialEq, Eq)]
pub enum OperateEvent {
    /// The control starts: whether its requester has gone, and whether the
    /// profile admits the intent (or why not).
    Begin { cancelled: bool, admission: Result<(), String> },
    /// A targeted observation: whether the field now holds the requested
    /// value (or the error met), whether the requester has gone, and whether
    /// the confirmation window is still open.
    Observed { matches: Result<bool, String>, cancelled: bool, window_open: bool },
    Dispatched(DispatchResult),
    /// The session's event stream ended while waiting.
    SessionEnded,
}

pub enum EventView {
    Begin(bool, Result<(), Seq<char>>),
    Observed(Result<bool, Seq<char>>, bool, bool),
    Written,
    InvalidCommand(Seq<char>),
    SessionStopped,
    WriteFailed(Seq<char>),
    SessionEnded,
}

impl View for OperateEvent {
    type V = EventView;

    open spec fn view(&self) -> EventView {
        match self {
            OperateEvent::Begin { cancelled, admission } => EventView::Begin(
                *cancelled,
                match admission {
                    Ok(()) => Ok(()),
                    Err(r) => Err(r@),
                },
            ),
            OperateEvent::Observed { matches, cancelled, window_open } => EventView::Observed(
                match matches {
                    Ok(b) => Ok(*b),
                    Err(e) => Err(e@),
                },
                *cancelled,
                *window_open,
            ),
            OperateEvent::Dispatched(DispatchResult::Written) => EventView::Written,
            OperateEvent::Dispatched(DispatchResult::InvalidCommand(m)) => EventView::InvalidCommand(m@),
            OperateEvent::Dispatched(DispatchResult::SessionStopped) => EventView::SessionStopped,
            OperateEvent::Dispatched(DispatchResult::Failed(e)) => EventView::WriteFailed(e@),
            OperateEvent::SessionEnded => EventView::SessionEnded,
        }
    }
}

/// What the session does next.
#[derive(Debug, Clone, PartialEq, Eq)]
pub enum OperateAction {
    /// Send this read-only query and report what it shows.
    Observe(AvrCommand),
    /// Write this command once; it is never replayed.
    Dispatch(AvrCommand),
    /// Wait for the recheck interval or a receiver event, then send this query.
    WaitThenObserve(AvrCommand),
    Finish(OperationOutcome),
    /// The event does not belong to this phase; nothing changes.
    Ignore,
}

pub enum ActionView {
    Observe(Seq<char>),
    Dispatch(Seq<char>),
    WaitThenObserve(Seq<char>),
    Finish(OutcomeView),
    Ignore,
}

impl View for OperateAction {
    type V = ActionView;

    open spec fn view(&self) -> ActionView {
        match self {
            OperateAction::Observe(c) => ActionView::Observe(c.text()),
            OperateAction::Dispatch(c) => ActionView::Dispatch(c.text()),
            OperateAction::WaitThenObserve(c) => ActionView::WaitThenObserve(c.text()),
            OperateAction::Finish(o) => ActionView::Finish(o@),
            OperateAction::Ignore => ActionView::Ignore,
        }
    }
}

/// The next phase and action of control `operation` of `intent`.
pub open spec fn operate_next(operation: u64, intent: ReceiverIntent, phase: PhaseView, event: EventView) -> (PhaseView, ActionView) {
    let observe = core_query_text(intent_field(intent));
    match (phase, event) {
        (PhaseView::Admission, EventView::Begin(cancelled, admission)) => if cancelled {
            (PhaseView::Finished, ActionView::Finish(OutcomeView::Cancelled(operation)))
        } else {
            match admission {
                Err(reason) => (PhaseView::Finished, ActionView::Finish(OutcomeView::RejectedBeforeDispatch(operation, reason))),
                Ok(()) => (PhaseView::Preflight, ActionView::Observe(observe)),
            }
        },
        (PhaseView::Preflight, EventView::Observed(matches, cancelled, _)) => match matches {
            Ok(true) => (PhaseView::Finished, ActionView::Finish(OutcomeView::AlreadyObserved(operation, "targeted preflight observation"@))),
            Err(e) => (PhaseView::Finished, ActionView::Finish(OutcomeView::RejectedBeforeDispatch(operation, "preflight failed: "@ + e))),
            Ok(false) => if cancelled {
                (PhaseView::Finished, ActionView::Finish(OutcomeView::Cancelled(operation)))
            } else {
                match intent_text(intent) {
                    Ok(command) => (PhaseView::Dispatching, ActionView::Dispatch(command)),
                    Err(e) => (PhaseView::Finished, ActionView::Finish(OutcomeView::RejectedBeforeDispatch(operation, e.text()))),
                }
            },
        },
        (PhaseView::Dispatching, EventView::Written) => (PhaseView::Confirming, ActionView::Observe(observe)),
        (PhaseView::Dispatching, EventView::InvalidCommand(m)) => (PhaseView::Finished, ActionView::Finish(OutcomeView::RejectedBeforeDispatch(operation, "command was not dispatched: "@ + m))),
        (PhaseView::Dispatching, EventView::SessionStopped) => (PhaseView::Finished, ActionView::Finish(OutcomeView::RejectedBeforeDispatch(operation, "session stopped before command dispatch"@))),
        (PhaseView::Dispatching, EventView::WriteFailed(e)) => (PhaseView::AmbiguousCheck(e), ActionView::Observe(observe)),
        (PhaseView::AmbiguousCheck(e), EventView::Observed(matches, _, _)) => match matches {
            Ok(true) => (PhaseView::Finished, ActionView::Finish(OutcomeView::ObservedRequestedValue(operation, DispatchCertainty::Unknown, "receiver observation after ambiguous write"@))),
            Ok(false) => (PhaseView::Finished, ActionView::Finish(OutcomeView::Indeterminate(operation, DispatchCertainty::Unknown, "write began but delivery is ambiguous: "@ + e))),
            Err(o) => (PhaseView::Finished, ActionView::Finish(OutcomeView::Indeterminate(operation, DispatchCertainty::Unknown, "write began but delivery is ambiguous ("@ + e + "); confirmation failed: "@ + o))),
        },
        (PhaseView::Confirming, EventView::Observed(matches, _, window_open)) => match matches {
            Ok(true) => (PhaseView::Finished, ActionView::Finish(OutcomeView::ObservedRequestedValue(operation, DispatchCertainty::CompleteWrite, "post-dispatch receiver observation"@))),
            Ok(false) => if window_open {
                (PhaseView::Confirming, ActionView::WaitThenObserve(observe))
            } else {
                (PhaseView::Finished, ActionView::Finish(OutcomeView::Indeterminate(operation, DispatchCertainty::CompleteWrite, "requested value was not observed within the confirmation window"@)))
            },
            Err(e) => (PhaseView::Finished, ActionView::Finish(OutcomeView::Indeterminate(operation, DispatchCertainty::CompleteWrite, "post-dispatch observation failed: "@ + e))),
        },
        (PhaseView::Confirming, EventView::SessionEnded) => (PhaseView::Finished, ActionView::Finish(OutcomeView::Indeterminate(operation, DispatchCertainty::CompleteWrite, "receiver session stopped during confirmation window"@))),
        (p, _) => (p, ActionView::Ignore),
    }
}

fn joined(a: &str, b: &str) -> (r: String)
    ensures
        r@ == a@ + b@,
{
    let mut v = chars_of(a);
    push_str(&mut v, b);
    string_of(&v)
}

/// One step of a control: the next phase, and what the session does.
pub fn operate_step(operation: u64, intent: &ReceiverIntent, phase: OperatePhase, event: OperateEvent) -> (r: (OperatePhase, OperateAction))
    ensures
        (r.0@, r.1@) == operate_next(operation, *intent, phase@, event@),
{
    match (phase, event) {
        (OperatePhase::Admission, OperateEvent::Begin { cancelled, admission }) => {
            if cancelled {
                (OperatePhase::Finished, OperateAction::Finish(OperationOutcome::Cancelled { operation }))
            } else {
                match admission {
                    Err(reason) => (OperatePhase::Finished, OperateAction::Finish(OperationOutcome::RejectedBeforeDispatch { operation, reason })),
                    Ok(()) => (OperatePhase::Preflight, OperateAction::Observe(query(intent))),
                }
            }
        },
        (OperatePhase::Preflight, OperateEvent::Observed { matches, cancelled, window_open }) => match matches {
            Ok(true) => (OperatePhase::Finished, OperateAction::Finish(OperationOutcome::AlreadyObserved {
                operation,
                observation: crate::text::owned("targeted preflight observation"),
            })),
            Err(e) => (OperatePhase::Finished, OperateAction::Finish(OperationOutcome::RejectedBeforeDispatch {
                operation,
                reason: joined("preflight failed: ", e.as_str()),
            })),
            Ok(false) => if cancelled {
                (OperatePhase::Finished, OperateAction::Finish(OperationOutcome::Cancelled { operation }))
            } else {
                match encode(intent) {
                    Ok(command) => (OperatePhase::Dispatching, OperateAction::Dispatch(command)),
                    Err(e) => (OperatePhase::Finished, OperateAction::Finish(OperationOutcome::RejectedBeforeDispatch {
                        operation,
                        reason: e.message(),
                    })),
                }
            },
        },
        (OperatePhase::Dispatching, OperateEvent::Dispatched(DispatchResult::Written)) => (OperatePhase::Confirming, OperateAction::Observe(query(intent))),
        (OperatePhase::Dispatching, OperateEvent::Dispatched(DispatchResult::InvalidCommand(m))) => (OperatePhase::Finished, OperateAction::Finish(OperationOutcome::RejectedBeforeDispatch {
            operation,
            reason: joined("command was not dispatched: ", m.as_str()),
        })),
        (OperatePhase::Dispatching, OperateEvent::Dispatched(DispatchResult::SessionStopped)) => (OperatePhase::Finished, OperateAction::Finish(OperationOutcome::RejectedBeforeDispatch {
            operation,
            reason: crate::text::owned("session stopped before command dispatch"),
        })),
        (OperatePhase::Dispatching, OperateEvent::Dispatched(DispatchResult::Failed(e))) => (OperatePhase::AmbiguousCheck(e), OperateAction::Observe(query(intent))),
        (OperatePhase::AmbiguousCheck(e), OperateEvent::Observed { matches, cancelled, window_open }) => match matches {
            Ok(true) => (OperatePhase::Finished, OperateAction::Finish(OperationOutcome::ObservedRequestedValue {
                operation,
                dispatch: DispatchCertainty::Unknown,
                observation: crate::text::owned("receiver observation after ambiguous write"),
            })),
            Ok(false) => (OperatePhase::Finished, OperateAction::Finish(OperationOutcome::Indeterminate {
                operation,
                dispatch: DispatchCertainty::Unknown,
                reason: joined("write began but delivery is ambiguous: ", e.as_str()),
            })),
            Err(o) => {
                let first = joined("write began but delivery is ambiguous (", e.as_str());
                let second = joined(first.as_str(), "); confirmation failed: ");
                (OperatePhase::Finished, OperateAction::Finish(OperationOutcome::Indeterminate {
                    operation,
                    dispatch: DispatchCertainty::Unknown,
                    reason: joined(second.as_str(), o.as_str()),
                }))
            },
        },
        (OperatePhase::Confirming, OperateEvent::Observed { matches, cancelled, window_open }) => match matches {
            Ok(true) => (OperatePhase::Finished, OperateAction::Finish(OperationOutcome::ObservedRequestedValue {
                operation,
                dispatch: DispatchCertainty::CompleteWrite,
                observation: crate::text::owned("post-dispatch receiver observation"),
            })),
            Ok(false) => if window_open {
                (OperatePhase::Confirming, OperateAction::WaitThenObserve(query(intent)))
            } else {
                (OperatePhase::Finished, OperateAction::Finish(OperationOutcome::Indeterminate {
                    operation,
                    dispatch: DispatchCertainty::CompleteWrite,
                    reason: crate::text::owned("requested value was not observed within the confirmation window"),
                }))
            },
            Err(e) => (OperatePhase::Finished, OperateAction::Finish(OperationOutcome::Indeterminate {
                operation,
                dispatch: DispatchCertainty::CompleteWrite,
                reason: joined("post-dispatch observation failed: ", e.as_str()),
            })),
        },
        (OperatePhase::Confirming, OperateEvent::SessionEnded) => (OperatePhase::Finished, OperateAction::Finish(OperationOutcome::Indeterminate {
            operation,
            dispatch: DispatchCertainty::CompleteWrite,
            reason: crate::text::owned("receiver session stopped during confirmation window"),
        })),
        (p, _) => (p, OperateAction::Ignore),
    }
}

/// A control writes at most once: only the step that leaves the preflight
/// dispatches, and no step after the write dispatches again.
pub proof fn lemma_written_once(operation: u64, intent: ReceiverIntent, phase: PhaseView, event: EventView)
    ensures
        operate_next(operation, intent, phase, event).1 is Dispatch ==> phase is Preflight
            && operate_next(operation, intent, phase, event).0 is Dispatching,
        !(phase is Admission || phase is Preflight) ==> !(operate_next(operation, intent, phase, event).1 is Dispatch),
{
}

/// A write is reported complete only after the session wrote it: an outcome
/// with `CompleteWrite` comes only from the confirmation phase.
pub proof fn lemma_complete_write_needs_the_write(operation: u64, intent: ReceiverIntent, phase: PhaseView, event: EventView)
    ensures
        operate_next(operation, intent, phase, event).1 matches ActionView::Finish(OutcomeView::ObservedRequestedValue(_, d, _))
            && d == DispatchCertainty::CompleteWrite ==> phase is Confirming,
        operate_next(operation, intent, phase, event).1 matches ActionView::Finish(OutcomeView::Indeterminate(_, d, _))
            && d == DispatchCertainty::CompleteWrite ==> phase is Confirming,
{
}

/// Why a field is being reconciled.
#[derive(Debug, Clone, Copy, PartialEq, Eq, Structural)]
pub enum SyncCause {
    ReceiverEvent,
    LocalControl,
    ManualRefresh,
}

/// At most this many user requests run before due reconciliation is served.
pub const MAX_USER_ACTIONS_BEFORE_DEBT: u8 = 8;

/// At most this long (in milliseconds) user work runs before due reconciliation is served.
pub const MAX_USER_WORK_WINDOW_MS: u64 = 500;

/// The session actor's own bookkeeping.
#[derive(Debug, Clone, Copy, PartialEq, Eq, Structural)]
pub struct ActorState {
    /// The current synchronization cycle.
    pub cycle: u64,
    /// User requests since due reconciliation was last served.
    pub user_action_count: u8,
    /// When the current run of user work began, in milliseconds.
    pub user_work_started_ms: u64,
}

/// What wakes the actor.
#[derive(Debug, Clone, Copy, PartialEq, Eq, Structural)]
pub enum ActorEvent {
    /// The top of the loop: whether reconciliation is due, and the time.
    Check { reconciliation_due: bool, now_ms: u64 },
    /// The reconciliation tick.
    DebtTick,
    /// The periodic sweep.
    Sweep,
    /// A receiver line was applied; the field it changed, if any.
    ReceiverEvent(Option<CoreField>),
    /// The receiver's event stream ended.
    StreamEnded,
    /// A request to observe one field.
    Observe(CoreField),
    /// A request for a full synchronization.
    Synchronize,
    /// A control of this field; whether its requester is still waiting.
    Operate { field: CoreField, requester_waiting: bool },
    /// A request to close, or the mailbox closed.
    Close,
}

/// What the actor does.
#[derive(Debug, Clone, Copy, PartialEq, Eq, Structural)]
pub enum ActorAction {
    /// Wait for the next event.
    Select,
    ServiceDebt,
    ExpireState,
    /// Observe every core field under this cycle, then drop settled debt.
    SynchronizeAll(u64),
    MergeDebt(CoreField, SyncCause, u64),
    MarkConverging(CoreField, SyncCause, u64),
    /// Observe one field under this cycle.
    ObserveField(CoreField, u64),
    /// Run the control under this cycle.
    RunOperation(u64),
    CloseSession,
    Stop,
}

/// Reconciliation that is due is served once user work has taken its turn:
/// eight requests, or half a second.
pub open spec fn fairness_due(state: ActorState, reconciliation_due: bool, now_ms: u64) -> bool {
    reconciliation_due && (state.user_action_count >= MAX_USER_ACTIONS_BEFORE_DEBT
        || now_ms - state.user_work_started_ms >= MAX_USER_WORK_WINDOW_MS)
}

pub open spec fn sat_add_u64(a: u64, b: u64) -> u64 {
    if a + b > u64::MAX { u64::MAX } else { (a + b) as u64 }
}

pub open spec fn sat_add_u8(a: u8, b: u8) -> u8 {
    if a + b > u8::MAX { u8::MAX } else { (a + b) as u8 }
}

/// The state after one user request: one more request, the next cycle.
pub open spec fn after_request(state: ActorState) -> ActorState {
    ActorState {
        cycle: sat_add_u64(state.cycle, 1),
        user_action_count: sat_add_u8(state.user_action_count, 1),
        ..state
    }
}

/// The debt merges a control asks for: its dependent fields, under its cycle.
pub open spec fn control_merges(field: CoreField, cycle: u64) -> Seq<ActorAction> {
    crate::core_profile::dependencies(field).map_values(|f: CoreField| ActorAction::MergeDebt(f, SyncCause::LocalControl, cycle))
}

/// The actor's next state and actions.
pub open spec fn actor_next(state: ActorState, event: ActorEvent) -> (ActorState, Seq<ActorAction>) {
    match event {
        ActorEvent::Check { reconciliation_due, now_ms } => if fairness_due(state, reconciliation_due, now_ms) {
            (ActorState { user_action_count: 0, user_work_started_ms: now_ms, ..state }, seq![ActorAction::ServiceDebt])
        } else {
            (state, seq![ActorAction::Select])
        },
        ActorEvent::DebtTick => (state, seq![ActorAction::ServiceDebt]),
        ActorEvent::Sweep => {
            let next = ActorState { cycle: sat_add_u64(state.cycle, 1), ..state };
            (next, seq![ActorAction::ExpireState, ActorAction::SynchronizeAll(next.cycle)])
        },
        ActorEvent::ReceiverEvent(changed) => match changed {
            Some(field) => (state, seq![ActorAction::MergeDebt(field, SyncCause::ReceiverEvent, state.cycle)]),
            None => (state, seq![]),
        },
        ActorEvent::StreamEnded => (state, seq![ActorAction::Stop]),
        ActorEvent::Observe(field) => {
            let next = after_request(state);
            (next, seq![
                ActorAction::MarkConverging(field, SyncCause::ManualRefresh, next.cycle),
                ActorAction::ObserveField(field, next.cycle),
            ])
        },
        ActorEvent::Synchronize => {
            let next = after_request(state);
            (next, seq![ActorAction::SynchronizeAll(next.cycle)])
        },
        ActorEvent::Operate { field, requester_waiting } => {
            let next = after_request(state);
            let merges = if requester_waiting { control_merges(field, next.cycle) } else { seq![] };
            (next, merges.push(ActorAction::RunOperation(next.cycle)))
        },
        ActorEvent::Close => (state, seq![ActorAction::CloseSession, ActorAction::Stop]),
    }
}

/// One step of the session actor.
pub fn actor_step(state: ActorState, event: ActorEvent) -> (r: (ActorState, Vec<ActorAction>))
    ensures
        (r.0, r.1@) == actor_next(state, event),
{
    match event {
        ActorEvent::Check { reconciliation_due, now_ms } => {
            let due = reconciliation_due && (state.user_action_count >= MAX_USER_ACTIONS_BEFORE_DEBT
                || (now_ms >= state.user_work_started_ms
                    && now_ms - state.user_work_started_ms >= MAX_USER_WORK_WINDOW_MS));
            if due {
                (ActorState { user_action_count: 0, user_work_started_ms: now_ms, ..state }, vec![ActorAction::ServiceDebt])
            } else {
                (state, vec![ActorAction::Select])
            }
        },
        ActorEvent::DebtTick => (state, vec![ActorAction::ServiceDebt]),
        ActorEvent::Sweep => {
            let next = ActorState { cycle: state.cycle.saturating_add(1), ..state };
            (next, vec![ActorAction::ExpireState, ActorAction::SynchronizeAll(next.cycle)])
        },
        ActorEvent::ReceiverEvent(changed) => match changed {
            Some(field) => (state, vec![ActorAction::MergeDebt(field, SyncCause::ReceiverEvent, state.cycle)]),
            None => (state, Vec::new()),
        },
        ActorEvent::StreamEnded => (state, vec![ActorAction::Stop]),
        ActorEvent::Observe(field) => {
            let next = ActorState {
                cycle: state.cycle.saturating_add(1),
                user_action_count: state.user_action_count.saturating_add(1),
                ..state
            };
            (next, vec![
                ActorAction::MarkConverging(field, SyncCause::ManualRefresh, next.cycle),
                ActorAction::ObserveField(field, next.cycle),
            ])
        },
        ActorEvent::Synchronize => {
            let next = ActorState {
                cycle: state.cycle.saturating_add(1),
                user_action_count: state.user_action_count.saturating_add(1),
                ..state
            };
            (next, vec![ActorAction::SynchronizeAll(next.cycle)])
        },
        ActorEvent::Operate { field, requester_waiting } => {
            let next = ActorState {
                cycle: state.cycle.saturating_add(1),
                user_action_count: state.user_action_count.saturating_add(1),
                ..state
            };
            let mut actions: Vec<ActorAction> = Vec::new();
            if requester_waiting {
                let fields = crate::core_profile::dependency_fields(field);
                let mut i: usize = 0;
                while i < fields.len()
                    invariant
                        i <= fields@.len(),
                        fields@ == crate::core_profile::dependencies(field),
                        actions@ == control_merges(field, next.cycle).take(i as int),
                    decreases fields@.len() - i,
                {
                    actions.push(ActorAction::MergeDebt(fields[i], SyncCause::LocalControl, next.cycle));
                    assert(control_merges(field, next.cycle).take(i + 1) =~= control_merges(field, next.cycle).take(i as int).push(ActorAction::MergeDebt(fields@[i as int], SyncCause::LocalControl, next.cycle)));
                    i += 1;
                }
                assert(control_merges(field, next.cycle).take(fields@.len() as int) =~= control_merges(field, next.cycle));
            } else {
                assert(actions@ =~= Seq::<ActorAction>::empty());
            }
            actions.push(ActorAction::RunOperation(next.cycle));
            (next, actions)
        },
        ActorEvent::Close => (state, vec![ActorAction::CloseSession, ActorAction::Stop]),
    }
}

/// User work cannot starve due reconciliation: once eight requests have run,
/// a check with reconciliation due serves it and starts a new run of work.
pub proof fn lemma_fairness_serves_due_debt(state: ActorState, now_ms: u64)
    requires
        state.user_action_count >= MAX_USER_ACTIONS_BEFORE_DEBT,
    ensures
        actor_next(state, ActorEvent::Check { reconciliation_due: true, now_ms }).1 == seq![ActorAction::ServiceDebt],
        actor_next(state, ActorEvent::Check { reconciliation_due: true, now_ms }).0.user_action_count == 0,
{
}

} // verus!
