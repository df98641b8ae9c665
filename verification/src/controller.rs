//! What the receiver controller decides between its session calls: whether a
//! control or a Quick Select recall may go out, what its result was, and how
//! the connection lifecycle follows the session's events.
use crate::domain::quick_select::{QuickSelectRecallConfirmation, QuickSelectRecallOutcome, QuickSelectSlot};
use crate::session::{controller_stopped, Lifecycle, OperationError, OperationErrorKind};
use crate::text::owned;
use crate::domain::{MainZoneControl, PowerState};
use vstd::prelude::*;

verus! {

/// How patiently the controller works, in milliseconds, and how many
/// commands may wait for it.
#[derive(Debug, Clone, PartialEq, Eq)]
pub struct ControllerConfig {
    pub power_on_quiet_time_millis: u64,
    pub confirmation_timeout_millis: u64,
    pub close_timeout_millis: u64,
    pub queue_capacity: usize,
}

impl ControllerConfig {
    /// One second of quiet after power-on, two seconds to confirm a control,
    /// one to close a session, and 32 queued commands.
    pub fn default() -> (r: Self)
        ensures
            r.power_on_quiet_time_millis == 1000,
            r.confirmation_timeout_millis == 2000,
            r.close_timeout_millis == 1000,
            r.queue_capacity == 32,
    {
        ControllerConfig {
            power_on_quiet_time_millis: 1000,
            confirmation_timeout_millis: 2000,
            close_timeout_millis: 1000,
            queue_capacity: 32,
        }
    }
}

/// The result of a main-zone control, `S` being the snapshot it leaves.
#[derive(Debug, Clone, PartialEq, Eq)]
pub enum ControlResult<S> {
    Dispatched { version: u64 },
    Confirmed { snapshot: S },
    NoOp { snapshot: S },
    Conflict { expected: u64, current: u64 },
    Unsupported(String),
    Rejected(OperationError),
    TransportFailure(OperationError),
    Unconfirmed(OperationError),
    Cancelled,
}

/// A selected receiver takes only the controls validated for its model.
pub fn control_support<S>(selected: bool, supported: bool) -> (r: Option<ControlResult<S>>)
    ensures
        selected && !supported ==> (r matches Some(ControlResult::Unsupported(m))
            && m@ == "selected receiver does not have validated support for this control"@),
        !(selected && !supported) ==> r is None,
{
    if selected && !supported {
        Some(ControlResult::Unsupported(owned("selected receiver does not have validated support for this control")))
    } else {
        None
    }
}

/// Before a control goes out: a named version must be the snapshot's, and a
/// value the receiver already reports is not sent again.
pub fn control_precondition<S>(expected: Option<u64>, current: u64, already_set: bool, snapshot: S) -> (r: Option<ControlResult<S>>)
    ensures
        expected matches Some(e) && e != current ==> r == Some(ControlResult::<S>::Conflict { expected: expected->0, current }),
        !(expected matches Some(e) && e != current) && already_set ==> r == Some(ControlResult::NoOp { snapshot: snapshot }),
        !(expected matches Some(e) && e != current) && !already_set ==> r is None,
{
    if let Some(e) = expected {
        if e != current {
            return Some(ControlResult::Conflict { expected: e, current });
        }
    }
    if already_set {
        Some(ControlResult::NoOp { snapshot })
    } else {
        None
    }
}

/// How the refresh after a control ended.
pub enum Confirmation {
    /// The refresh finished.
    Refreshed,
    /// The refresh failed.
    Failed(OperationError),
    /// The confirmation deadline passed first.
    TimedOut,
}

/// The result of a dispatched control, from the refresh that followed it and
/// whether the refreshed snapshot reports the requested value.
pub fn confirmation_result<S>(refresh: Confirmation, reported: bool, snapshot: S) -> (r: ControlResult<S>)
    ensures
        refresh is Refreshed && reported ==> r == (ControlResult::Confirmed { snapshot }),
        refresh is Refreshed && !reported ==> (r matches ControlResult::Unconfirmed(e)
            && e.kind == OperationErrorKind::Unavailable && e.context@ == "confirming control"@
            && e.message@ == "receiver did not report requested value"@),
        refresh matches Confirmation::Failed(e) ==> r == ControlResult::<S>::Unconfirmed(e),
        refresh is TimedOut ==> (r matches ControlResult::Unconfirmed(e) && e.kind == OperationErrorKind::Timeout
            && e.context@ == "confirming control"@ && e.message@ == "confirmation deadline expired"@),
{
    match refresh {
        Confirmation::Refreshed => if reported {
            ControlResult::Confirmed { snapshot }
        } else {
            ControlResult::Unconfirmed(OperationError::new(
                OperationErrorKind::Unavailable,
                "confirming control",
                "receiver did not report requested value",
            ))
        },
        Confirmation::Failed(e) => ControlResult::Unconfirmed(e),
        Confirmation::TimedOut => ControlResult::Unconfirmed(OperationError::new(
            OperationErrorKind::Timeout,
            "confirming control",
            "confirmation deadline expired",
        )),
    }
}

/// Where a main-zone control stands: checked in this order, support, the
/// connection, the snapshot's version and value, the write, the quiet time,
/// the confirming refresh.
#[derive(Debug, Clone, Copy, PartialEq, Eq, Structural)]
pub enum ControlPhase {
    /// Nothing done yet.
    Start,
    /// Waiting for the connection the control needs.
    Connecting { quiet_millis: u64 },
    /// Waiting for the snapshot to check the control against.
    Checking { quiet_millis: u64 },
    /// Waiting for the write to finish.
    Writing { quiet_millis: u64 },
    /// Waiting for the refresh that confirms the control.
    Confirming,
    /// The control has its result.
    Done,
}

/// What the controller learns while a control runs.
pub enum ControlEvent<S> {
    /// The control begins: whether a receiver is selected and its model
    /// supports the control, whether a session is open, and how long to wait
    /// after the write (see `quiet_time_after`).
    Begin { selected: bool, supported: bool, connected: bool, quiet_millis: u64 },
    /// The connection attempt ended.
    Connected(Result<(), OperationError>),
    /// The snapshot now: the version the control expects, the snapshot's own,
    /// whether it already reports the requested value, and whether a session
    /// is there to write to.
    Snapshot { expected: Option<u64>, current: u64, already_set: bool, snapshot: S, session: bool },
    /// The write ended.
    Written(Result<(), OperationError>),
    /// The confirming refresh ended, and whether it reports the requested value.
    Refreshed { refresh: Confirmation, reported: bool, snapshot: S },
}

/// What the controller does next for a control.
#[derive(Debug, PartialEq, Eq)]
pub enum ControlAction<S> {
    /// Open a session.
    Connect,
    /// Read the snapshot to check the control against.
    ReadSnapshot,
    /// Write the control to the receiver.
    Write,
    /// Wait this long, then refresh to confirm the control.
    Confirm { quiet_millis: u64 },
    /// The control is over with this result.
    Finish(ControlResult<S>),
    /// The event does not belong to this phase: nothing to do.
    Ignore,
}

/// One step of a control: the next phase and what to do, from the phase it
/// stands in and what was learned.
pub fn control_step<S>(phase: ControlPhase, event: ControlEvent<S>) -> (r: (ControlPhase, ControlAction<S>))
    ensures
        match (phase, event) {
            (ControlPhase::Start, ControlEvent::Begin { selected, supported, connected, quiet_millis }) =>
                if selected && !supported {
                    r.0 == ControlPhase::Done && (r.1 matches ControlAction::Finish(ControlResult::Unsupported(m))
                        && m@ == "selected receiver does not have validated support for this control"@)
                } else if !connected {
                    r.0 == ControlPhase::Connecting { quiet_millis } && r.1 is Connect
                } else {
                    r.0 == ControlPhase::Checking { quiet_millis } && r.1 is ReadSnapshot
                },
            (ControlPhase::Connecting { quiet_millis }, ControlEvent::Connected(c)) => match c {
                Err(e) => r.0 == ControlPhase::Done && r.1 == ControlAction::<S>::Finish(ControlResult::Rejected(e)),
                Ok(_) => r.0 == ControlPhase::Checking { quiet_millis } && r.1 is ReadSnapshot,
            },
            (ControlPhase::Checking { quiet_millis }, ControlEvent::Snapshot { expected, current, already_set, snapshot, session }) =>
                if expected matches Some(e) && e != current {
                    r.0 == ControlPhase::Done && r.1 == ControlAction::Finish(ControlResult::<S>::Conflict { expected: expected->0, current })
                } else if already_set {
                    r.0 == ControlPhase::Done && r.1 == ControlAction::Finish(ControlResult::NoOp { snapshot })
                } else if !session {
                    r.0 == ControlPhase::Done && (r.1 matches ControlAction::Finish(ControlResult::Rejected(e))
                        && e.kind == OperationErrorKind::Stopped && e.context@ == "controller"@
                        && e.message@ == "controller is stopped"@)
                } else {
                    r.0 == ControlPhase::Writing { quiet_millis } && r.1 is Write
                },
            (ControlPhase::Writing { quiet_millis }, ControlEvent::Written(w)) => match w {
                Err(e) => r.0 == ControlPhase::Done && r.1 == ControlAction::<S>::Finish(ControlResult::TransportFailure(e)),
                Ok(_) => r.0 == ControlPhase::Confirming && r.1 == ControlAction::<S>::Confirm { quiet_millis },
            },
            (ControlPhase::Confirming, ControlEvent::Refreshed { refresh, reported, snapshot }) =>
                r.0 == ControlPhase::Done && (r.1 matches ControlAction::Finish(result) && match refresh {
                    Confirmation::Refreshed => if reported {
                        result == ControlResult::Confirmed { snapshot }
                    } else {
                        result matches ControlResult::Unconfirmed(e) && e.kind == OperationErrorKind::Unavailable
                            && e.context@ == "confirming control"@ && e.message@ == "receiver did not report requested value"@
                    },
                    Confirmation::Failed(e) => result == ControlResult::<S>::Unconfirmed(e),
                    Confirmation::TimedOut => result matches ControlResult::Unconfirmed(e)
                        && e.kind == OperationErrorKind::Timeout && e.context@ == "confirming control"@
                        && e.message@ == "confirmation deadline expired"@,
                }),
            _ => r.0 == phase && r.1 is Ignore,
        },
        r.1 is Write ==> phase is Checking && r.0 is Writing && (event matches ControlEvent::Snapshot { expected, current, already_set, session, .. }
            && !(expected matches Some(e) && e != current) && !already_set && session),
        phase is Done ==> r.0 is Done && r.1 is Ignore,
{
    match (phase, event) {
        (ControlPhase::Start, ControlEvent::Begin { selected, supported, connected, quiet_millis }) => {
            match control_support::<S>(selected, supported) {
                Some(result) => (ControlPhase::Done, ControlAction::Finish(result)),
                None => if !connected {
                    (ControlPhase::Connecting { quiet_millis }, ControlAction::Connect)
                } else {
                    (ControlPhase::Checking { quiet_millis }, ControlAction::ReadSnapshot)
                },
            }
        },
        (ControlPhase::Connecting { quiet_millis }, ControlEvent::Connected(c)) => match c {
            Err(e) => (ControlPhase::Done, ControlAction::Finish(ControlResult::Rejected(e))),
            Ok(_) => (ControlPhase::Checking { quiet_millis }, ControlAction::ReadSnapshot),
        },
        (ControlPhase::Checking { quiet_millis }, ControlEvent::Snapshot { expected, current, already_set, snapshot, session }) => {
            match control_precondition(expected, current, already_set, snapshot) {
                Some(result) => (ControlPhase::Done, ControlAction::Finish(result)),
                None => if !session {
                    (ControlPhase::Done, ControlAction::Finish(ControlResult::Rejected(controller_stopped())))
                } else {
                    (ControlPhase::Writing { quiet_millis }, ControlAction::Write)
                },
            }
        },
        (ControlPhase::Writing { quiet_millis }, ControlEvent::Written(w)) => match w {
            Err(e) => (ControlPhase::Done, ControlAction::Finish(ControlResult::TransportFailure(e))),
            Ok(_) => (ControlPhase::Confirming, ControlAction::Confirm { quiet_millis }),
        },
        (ControlPhase::Confirming, ControlEvent::Refreshed { refresh, reported, snapshot }) => {
            (ControlPhase::Done, ControlAction::Finish(confirmation_result(refresh, reported, snapshot)))
        },
        _ => (phase, ControlAction::Ignore),
    }
}

/// Before a Quick Select recall goes out: the model must support it, and a
/// named resource version must be the current one.
pub fn recall_precondition(supported: bool, expected: Option<u64>, current: u64) -> (r: Option<QuickSelectRecallOutcome>)
    ensures
        !supported ==> (r matches Some(QuickSelectRecallOutcome::Unsupported(m))
            && m@ == "selected receiver has no validated Quick Select capability"@),
        supported && (expected matches Some(e) && e != current) ==> r == Some(
            QuickSelectRecallOutcome::Conflict { expected: expected->0, current }),
        supported && !(expected matches Some(e) && e != current) ==> r is None,
{
    if !supported {
        return Some(QuickSelectRecallOutcome::Unsupported(owned("selected receiver has no validated Quick Select capability")));
    }
    if let Some(e) = expected {
        if e != current {
            return Some(QuickSelectRecallOutcome::Conflict { expected: e, current });
        }
    }
    None
}

/// What a recall came to: an authoritative confirmation confirms it, a mere
/// dispatch leaves it unconfirmed, and a failure is unsupported, unconfirmed
/// (when the connection may have carried it) or a transport failure.
pub fn recall_outcome(slot: QuickSelectSlot, result: Result<QuickSelectRecallConfirmation, OperationError>) -> (r: QuickSelectRecallOutcome)
    ensures
        result == Ok::<QuickSelectRecallConfirmation, OperationError>(QuickSelectRecallConfirmation::Authoritative)
            ==> r == (QuickSelectRecallOutcome::Confirmed { slot }),
        result == Ok::<QuickSelectRecallConfirmation, OperationError>(QuickSelectRecallConfirmation::Dispatched)
            ==> (r matches QuickSelectRecallOutcome::Unconfirmed(m)
            && m@ == "receiver acknowledged the preset command; resulting state was not authoritative"@),
        result matches Err(e) ==> (match e.kind {
            OperationErrorKind::Unsupported => r matches QuickSelectRecallOutcome::Unsupported(m) && m@ == e.context@ + ": "@ + e.message@,
            OperationErrorKind::Timeout | OperationErrorKind::Disconnected | OperationErrorKind::Connection =>
                r matches QuickSelectRecallOutcome::Unconfirmed(m) && m@ == e.context@ + ": "@ + e.message@,
            _ => r matches QuickSelectRecallOutcome::TransportFailure(m) && m@ == e.context@ + ": "@ + e.message@,
        }),
{
    match result {
        Ok(QuickSelectRecallConfirmation::Authoritative) => QuickSelectRecallOutcome::Confirmed { slot },
        Ok(QuickSelectRecallConfirmation::Dispatched) => QuickSelectRecallOutcome::Unconfirmed(owned(
            "receiver acknowledged the preset command; resulting state was not authoritative",
        )),
        Err(e) => match e.kind {
            OperationErrorKind::Unsupported => QuickSelectRecallOutcome::Unsupported(e.text()),
            OperationErrorKind::Timeout | OperationErrorKind::Disconnected | OperationErrorKind::Connection =>
                QuickSelectRecallOutcome::Unconfirmed(e.text()),
            _ => QuickSelectRecallOutcome::TransportFailure(e.text()),
        },
    }
}

/// The lifecycle after a disconnect: back to the selection, if there is one.
pub fn disconnected_lifecycle(selected: bool) -> (r: Lifecycle)
    ensures
        r == (if selected { Lifecycle::Selected } else { Lifecycle::NoReceiver }),
{
    if selected {
        Lifecycle::Selected
    } else {
        Lifecycle::NoReceiver
    }
}

/// What the session reported between commands.
#[derive(Debug, Clone, Copy, PartialEq, Eq, Structural)]
pub enum SessionSignal {
    Reconnecting,
    Connected,
    Disconnected,
    MainZoneEvent,
    Failed,
}

/// The controller's response to one session signal.
#[derive(Debug, Clone, Copy, PartialEq, Eq, Structural)]
pub struct SignalStep {
    pub lifecycle: Lifecycle,
    pub generation: u64,
    /// The snapshot and the Quick Select and EQ observations are forgotten.
    pub invalidate: bool,
    /// The new lifecycle is published.
    pub publish_lifecycle: bool,
    /// The main-zone event is applied and the snapshot published.
    pub apply_event: bool,
    /// Draining stops.
    pub stop: bool,
}

/// A reconnect starts a new connection generation and forgets what was
/// observed; its end restores `Connected` in the new generation; a disconnect
/// or a failed read forgets what was observed; a main-zone event is applied.
pub fn session_signal_step(lifecycle: Lifecycle, generation: u64, signal: SessionSignal) -> (r: SignalStep)
    ensures
        signal == SessionSignal::Reconnecting ==> r == (SignalStep {
            lifecycle: Lifecycle::Reconnecting { generation: if generation == u64::MAX { generation } else { (generation + 1) as u64 } },
            generation: if generation == u64::MAX { generation } else { (generation + 1) as u64 },
            invalidate: true,
            publish_lifecycle: true,
            apply_event: false,
            stop: false,
        }),
        signal == SessionSignal::Connected ==> r == (SignalStep {
            lifecycle: if lifecycle is Reconnecting { Lifecycle::Connected { generation } } else { lifecycle },
            generation,
            invalidate: false,
            publish_lifecycle: lifecycle is Reconnecting,
            apply_event: false,
            stop: false,
        }),
        signal == SessionSignal::Disconnected ==> r == (SignalStep {
            lifecycle: Lifecycle::Disconnected,
            generation,
            invalidate: true,
            publish_lifecycle: true,
            apply_event: false,
            stop: false,
        }),
        signal == SessionSignal::MainZoneEvent ==> r == (SignalStep {
            lifecycle,
            generation,
            invalidate: false,
            publish_lifecycle: false,
            apply_event: true,
            stop: false,
        }),
        signal == SessionSignal::Failed ==> r == (SignalStep {
            lifecycle: Lifecycle::Disconnected,
            generation,
            invalidate: true,
            publish_lifecycle: true,
            apply_event: false,
            stop: true,
        }),
{
    match signal {
        SessionSignal::Reconnecting => {
            let next = generation.saturating_add(1);
            SignalStep {
                lifecycle: Lifecycle::Reconnecting { generation: next },
                generation: next,
                invalidate: true,
                publish_lifecycle: true,
                apply_event: false,
                stop: false,
            }
        },
        SessionSignal::Connected => {
            let reconnecting = match lifecycle {
                Lifecycle::Reconnecting { .. } => true,
                _ => false,
            };
            SignalStep {
                lifecycle: if reconnecting { Lifecycle::Connected { generation } } else { lifecycle },
                generation,
                invalidate: false,
                publish_lifecycle: reconnecting,
                apply_event: false,
                stop: false,
            }
        },
        SessionSignal::Disconnected => SignalStep {
            lifecycle: Lifecycle::Disconnected,
            generation,
            invalidate: true,
            publish_lifecycle: true,
            apply_event: false,
            stop: false,
        },
        SessionSignal::MainZoneEvent => SignalStep {
            lifecycle,
            generation,
            invalidate: false,
            publish_lifecycle: false,
            apply_event: true,
            stop: false,
        },
        SessionSignal::Failed => SignalStep {
            lifecycle: Lifecycle::Disconnected,
            generation,
            invalidate: true,
            publish_lifecycle: true,
            apply_event: false,
            stop: true,
        },
    }
}

/// Every reconnect moves the generation forward until it saturates, so
/// results of an older connection are told apart from the current one's.
pub proof fn lemma_reconnect_advances_generation(generation: u64)
    ensures
        generation < u64::MAX ==> generation < (if generation == u64::MAX { generation } else { (generation + 1) as u64 }),
{
}

/// How long a control waits after its write before it refreshes to confirm:
/// the configured quiet time after power-on, else not at all.
pub fn quiet_time_after(config: &ControllerConfig, control: &MainZoneControl) -> (r: u64)
    ensures
        r == (if *control == MainZoneControl::Power(PowerState::On) { config.power_on_quiet_time_millis } else { 0 }),
{
    match control {
        MainZoneControl::Power(PowerState::On) => config.power_on_quiet_time_millis,
        _ => 0,
    }
}

} // verus!
