use denon_avr_remote::controller::{
    confirmation_result, control_precondition, control_support, disconnected_lifecycle,
    control_step, recall_outcome, recall_precondition, session_signal_step, Confirmation,
    ControlAction, ControlEvent, ControlPhase, ControlResult, SessionSignal,
};
use denon_avr_remote::domain::quick_select::{
    QuickSelectRecallConfirmation, QuickSelectRecallOutcome, QuickSelectSlot,
};
use denon_avr_remote::domain::{MainZoneField, MainZoneValue, PowerState};
use denon_avr_remote::session::{
    audio_context_command_list, audio_context_reading, sync_event, sync_line_text, sync_response,
    AvrSessionError, ConnectionState, ContextReading, Lifecycle, OperationError,
    OperationErrorKind, SessionEvent,
};

#[test]
fn controls_are_gated_by_support_version_and_current_value() {
    assert!(matches!(control_support::<u8>(true, false), Some(ControlResult::Unsupported(_))));
    assert_eq!(control_support::<u8>(false, false), None);
    assert_eq!(control_precondition(Some(2), 3, false, 7u8), Some(ControlResult::Conflict { expected: 2, current: 3 }));
    assert_eq!(control_precondition(Some(3), 3, true, 7u8), Some(ControlResult::NoOp { snapshot: 7 }));
    assert_eq!(control_precondition(None, 3, false, 7u8), None);
}

#[test]
fn dispatched_controls_are_confirmed_only_by_the_refreshed_value() {
    assert_eq!(confirmation_result(Confirmation::Refreshed, true, 1u8), ControlResult::Confirmed { snapshot: 1 });
    let ControlResult::Unconfirmed(error) = confirmation_result(Confirmation::Refreshed, false, 1u8) else {
        panic!("expected an unconfirmed result");
    };
    assert_eq!(error.text(), "confirming control: receiver did not report requested value");
    let ControlResult::Unconfirmed(error) = confirmation_result(Confirmation::TimedOut, true, 1u8) else {
        panic!("expected an unconfirmed result");
    };
    assert_eq!(error.kind, OperationErrorKind::Timeout);
    let failure = OperationError::new(OperationErrorKind::Disconnected, "refreshing", "gone");
    assert_eq!(
        confirmation_result(Confirmation::Failed(failure.clone()), true, 1u8),
        ControlResult::Unconfirmed(failure)
    );
}

#[test]
fn stale_quick_select_versions_are_rejected_before_dispatch() {
    assert!(matches!(recall_precondition(false, None, 0), Some(QuickSelectRecallOutcome::Unsupported(_))));
    assert_eq!(
        recall_precondition(true, Some(1), 2),
        Some(QuickSelectRecallOutcome::Conflict { expected: 1, current: 2 })
    );
    assert_eq!(recall_precondition(true, Some(2), 2), None);
}

#[test]
fn recall_results_keep_authority_apart_from_dispatch() {
    let slot = QuickSelectSlot::new(2).unwrap();
    assert_eq!(
        recall_outcome(slot, Ok(QuickSelectRecallConfirmation::Authoritative)),
        QuickSelectRecallOutcome::Confirmed { slot }
    );
    assert!(matches!(
        recall_outcome(slot, Ok(QuickSelectRecallConfirmation::Dispatched)),
        QuickSelectRecallOutcome::Unconfirmed(_)
    ));
    let error = OperationError::new(OperationErrorKind::Unsupported, "Quick Select", "not validated");
    assert_eq!(
        recall_outcome(slot, Err(error)),
        QuickSelectRecallOutcome::Unsupported("Quick Select: not validated".into())
    );
    let error = OperationError::new(OperationErrorKind::Timeout, "recall", "late");
    assert!(matches!(recall_outcome(slot, Err(error)), QuickSelectRecallOutcome::Unconfirmed(_)));
    let error = OperationError::new(OperationErrorKind::Malformed, "recall", "bad");
    assert!(matches!(recall_outcome(slot, Err(error)), QuickSelectRecallOutcome::TransportFailure(_)));
}

#[test]
fn reconnects_start_a_new_generation() {
    let step = session_signal_step(Lifecycle::Connected { generation: 4 }, 4, SessionSignal::Reconnecting);
    assert_eq!(step.generation, 5);
    assert_eq!(step.lifecycle, Lifecycle::Reconnecting { generation: 5 });
    assert!(step.invalidate);
    let step = session_signal_step(step.lifecycle, step.generation, SessionSignal::Connected);
    assert_eq!(step.lifecycle, Lifecycle::Connected { generation: 5 });
    assert!(step.publish_lifecycle);
    let idle = session_signal_step(Lifecycle::Connected { generation: 5 }, 5, SessionSignal::Connected);
    assert!(!idle.publish_lifecycle);
    assert!(session_signal_step(Lifecycle::Connected { generation: 5 }, 5, SessionSignal::Failed).stop);
    assert!(session_signal_step(Lifecycle::Connected { generation: 5 }, 5, SessionSignal::MainZoneEvent).apply_event);
    assert_eq!(
        session_signal_step(Lifecycle::Connected { generation: u64::MAX }, u64::MAX, SessionSignal::Reconnecting).generation,
        u64::MAX
    );
    assert_eq!(disconnected_lifecycle(true), Lifecycle::Selected);
    assert_eq!(disconnected_lifecycle(false), Lifecycle::NoReceiver);
}

#[test]
fn audio_context_answers_are_read_by_family() {
    assert_eq!(audio_context_command_list(), vec!["SI?", "SD?", "DC?", "MS?", "CV?"]);
    assert_eq!(audio_context_reading("SD", Ok("SDHDMI".into())), ContextReading::Known("HDMI".into()));
    assert_eq!(audio_context_reading("SD", Ok("SD".into())), ContextReading::Malformed);
    assert_eq!(audio_context_reading("MS", Ok("MS\u{7}".into())), ContextReading::Malformed);
    assert_eq!(audio_context_reading("MS", Ok("MSSTEREO".into())), ContextReading::Known("STEREO".into()));
    let ContextReading::Unavailable(error) =
        audio_context_reading("CV", Err(AvrSessionError::Timeout("waiting for CV response".into())))
    else {
        panic!("expected an unavailable field");
    };
    assert_eq!(error.message, "AVR session timed out: waiting for CV response");
}

#[test]
fn the_synchronous_client_reads_lines_and_values() {
    assert_eq!(sync_line_text(b"PWON\r").unwrap(), "PWON");
    assert_eq!(sync_line_text(b"PWON").unwrap_err().message, "line was not terminated by CR");
    assert!(sync_line_text(&[0xff, b'\r']).is_err());
    assert_eq!(sync_response(MainZoneField::Power, "PW", "SICD").unwrap(), None);
    assert_eq!(
        sync_response(MainZoneField::Power, "PW", "PWON").unwrap(),
        Some(MainZoneValue::Power(PowerState::On))
    );
    assert_eq!(sync_response(MainZoneField::Power, "PW", "PWMAYBE").unwrap_err().kind, OperationErrorKind::Malformed);
    assert_eq!(sync_event("Z2ON"), SessionEvent::Connection(ConnectionState::Connected));
    assert!(matches!(sync_event("MUON"), SessionEvent::MainZone(_)));
}

#[test]
fn only_power_on_waits_before_confirmation() {
    let config = denon_avr_remote::controller::ControllerConfig::default();
    assert_eq!(
        denon_avr_remote::controller::quiet_time_after(&config, &denon_avr_remote::domain::MainZoneControl::Power(denon_avr_remote::domain::PowerState::On)),
        1000
    );
    assert_eq!(
        denon_avr_remote::controller::quiet_time_after(&config, &denon_avr_remote::domain::MainZoneControl::Mute(denon_avr_remote::domain::MuteState::On)),
        0
    );
}

#[test]
fn a_control_is_checked_written_and_confirmed_in_order() {
    let (phase, action) = control_step::<u8>(ControlPhase::Start, ControlEvent::Begin { selected: true, supported: true, connected: false, quiet_millis: 1000 });
    assert_eq!(phase, ControlPhase::Connecting { quiet_millis: 1000 });
    assert_eq!(action, ControlAction::Connect);
    let (phase, action) = control_step::<u8>(phase, ControlEvent::Connected(Ok(())));
    assert_eq!(phase, ControlPhase::Checking { quiet_millis: 1000 });
    assert_eq!(action, ControlAction::ReadSnapshot);
    let (phase, action) = control_step(phase, ControlEvent::Snapshot { expected: Some(4), current: 4, already_set: false, snapshot: 1u8, session: true });
    assert_eq!(phase, ControlPhase::Writing { quiet_millis: 1000 });
    assert_eq!(action, ControlAction::Write);
    let (phase, action) = control_step::<u8>(phase, ControlEvent::Written(Ok(())));
    assert_eq!(phase, ControlPhase::Confirming);
    assert_eq!(action, ControlAction::Confirm { quiet_millis: 1000 });
    let (phase, action) = control_step(phase, ControlEvent::Refreshed { refresh: Confirmation::Refreshed, reported: true, snapshot: 2u8 });
    assert_eq!(phase, ControlPhase::Done);
    assert_eq!(action, ControlAction::Finish(ControlResult::Confirmed { snapshot: 2 }));
    let (phase, action) = control_step::<u8>(phase, ControlEvent::Written(Ok(())));
    assert_eq!(phase, ControlPhase::Done);
    assert_eq!(action, ControlAction::Ignore);
}

#[test]
fn a_control_stops_at_the_first_failed_check() {
    let (phase, action) = control_step::<u8>(ControlPhase::Start, ControlEvent::Begin { selected: true, supported: false, connected: true, quiet_millis: 0 });
    assert_eq!(phase, ControlPhase::Done);
    assert!(matches!(action, ControlAction::Finish(ControlResult::Unsupported(_))));
    let checking = ControlPhase::Checking { quiet_millis: 0 };
    let (_, action) = control_step(checking, ControlEvent::Snapshot { expected: Some(2), current: 3, already_set: true, snapshot: 1u8, session: true });
    assert_eq!(action, ControlAction::Finish(ControlResult::Conflict { expected: 2, current: 3 }));
    let (_, action) = control_step(checking, ControlEvent::Snapshot { expected: None, current: 3, already_set: true, snapshot: 1u8, session: true });
    assert_eq!(action, ControlAction::Finish(ControlResult::NoOp { snapshot: 1 }));
    let (_, action) = control_step(checking, ControlEvent::Snapshot { expected: None, current: 3, already_set: false, snapshot: 1u8, session: false });
    let ControlAction::Finish(ControlResult::Rejected(error)) = action else { panic!("expected a rejection") };
    assert_eq!(error.message, "controller is stopped");
    let failure = OperationError::new(OperationErrorKind::Timeout, "write", "timed out");
    let (phase, action) = control_step::<u8>(ControlPhase::Writing { quiet_millis: 0 }, ControlEvent::Written(Err(failure.clone())));
    assert_eq!(phase, ControlPhase::Done);
    assert_eq!(action, ControlAction::Finish(ControlResult::TransportFailure(failure)));
}
