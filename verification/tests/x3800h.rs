use denon_avr_remote::operation::{
    actor_step, ActorAction, ActorEvent, ActorState, SyncCause, operate_step, DispatchCertainty, DispatchResult, OperateAction, OperateEvent, OperatePhase,
    OperationOutcome,
};
use denon_avr_remote::core_profile::{
    core_frame, core_intents, dependency_fields, intent_for_field, lifecycle_transition,
    master_volume, volume,
};
use denon_avr_remote::domain::profile::{
    canonical_x3800h_source, CoreField, CoreFrame, Epoch, MasterVolume, ReceiverIntent,
    SoundModeIntent, SoundModeStatus, SystemPower, ZonePower,
};
use denon_avr_remote::domain::source::SourceId;
use denon_avr_remote::domain::{MuteState, VolumeLevel};
use denon_avr_remote::protocol::avr::command::AvrProtocolError;
use denon_avr_remote::protocol::avr::x3800h::{encode, parse, query, X3800hFrame};
use denon_avr_remote::session::ConnectionState;

#[test]
fn main_zone_never_uses_system_power_family() {
    assert_eq!(
        encode(&ReceiverIntent::MainZonePower(ZonePower::On))
            .unwrap()
            .as_str(),
        "ZMON"
    );
    assert_eq!(
        query(&ReceiverIntent::MainZonePower(ZonePower::Off)).as_str(),
        "ZM?"
    );
}

#[test]
fn exact_volume_boundaries_are_enforced() {
    assert_eq!(
        encode(&ReceiverIntent::Volume(MasterVolume::Minimum))
            .unwrap()
            .as_str(),
        "MVMIN"
    );
    assert_eq!(
        encode(&ReceiverIntent::Volume(
            MasterVolume::db_half_steps(36).unwrap()
        ))
        .unwrap()
        .as_str(),
        "MV98"
    );
    assert!(parse("MV985").is_err());
    assert_eq!(
        parse("MV005").unwrap(),
        X3800hFrame::Volume(MasterVolume::db_half_steps(-159).unwrap())
    );
    assert_eq!(
        parse("MVMAX 80").unwrap(),
        X3800hFrame::VolumeLimit("MVMAX 80".into())
    );
}

#[test]
fn source_encoding_uses_canonical_profile_identifier() {
    assert_eq!(
        encode(&ReceiverIntent::Source(SourceId::new("cd").unwrap()))
            .unwrap()
            .as_str(),
        "SICD"
    );
    assert!(encode(&ReceiverIntent::Source(SourceId::new("CUSTOM").unwrap())).is_err());
}

#[test]
fn unknown_wire_frame_cannot_mutate_typed_state() {
    assert!(core_frame(X3800hFrame::Unknown("ZZanything".into())).is_none());
    assert_eq!(
        core_frame(X3800hFrame::MainZonePower(ZonePower::On)),
        Some(CoreFrame::MainZonePower(ZonePower::On))
    );
}

#[test]
fn epoch_transitions_map_to_lifecycle_events_without_cross_epoch_noise() {
    assert_eq!(
        lifecycle_transition(Some(Epoch(1)), None),
        Some(ConnectionState::Reconnecting)
    );
    assert_eq!(
        lifecycle_transition(None, Some(Epoch(2))),
        Some(ConnectionState::Connected)
    );
    assert_eq!(lifecycle_transition(Some(Epoch(1)), Some(Epoch(2))), None);
    assert_eq!(lifecycle_transition(None, None), None);
}

#[test]
fn every_core_query_uses_its_own_family() {
    let expected = ["PW?", "ZM?", "Z2?", "SI?", "MV?", "MU?", "MS?"];
    let intents = core_intents();
    assert_eq!(intents.len(), expected.len());
    for (intent, text) in intents.iter().zip(expected.iter()) {
        assert_eq!(query(intent).as_str(), *text);
    }
}

#[test]
fn fixed_commands_have_exact_wire_text() {
    let cases = [
        (ReceiverIntent::SystemPower(SystemPower::On), "PWON"),
        (ReceiverIntent::SystemPower(SystemPower::Standby), "PWSTANDBY"),
        (ReceiverIntent::MainZonePower(ZonePower::Off), "ZMOFF"),
        (ReceiverIntent::Zone2Power(ZonePower::On), "Z2ON"),
        (ReceiverIntent::Zone2Power(ZonePower::Off), "Z2OFF"),
        (ReceiverIntent::Mute(MuteState::On), "MUON"),
        (ReceiverIntent::Mute(MuteState::Off), "MUOFF"),
        (ReceiverIntent::SoundMode(SoundModeIntent::PureDirect), "MSPURE DIRECT"),
        (ReceiverIntent::SoundMode(SoundModeIntent::RecallMovie), "MSMOVIE"),
        (ReceiverIntent::Volume(MasterVolume::db_half_steps(-159).unwrap()), "MV005"),
        (ReceiverIntent::Volume(MasterVolume::db_half_steps(-70).unwrap()), "MV45"),
        (ReceiverIntent::Volume(MasterVolume::db_half_steps(-69).unwrap()), "MV455"),
    ];
    for (intent, text) in cases.iter() {
        assert_eq!(encode(intent).unwrap().as_str(), *text);
    }
}

#[test]
fn half_step_range_is_closed() {
    assert_eq!(
        MasterVolume::db_half_steps(-160),
        Err("master volume is outside the half-step range")
    );
    assert_eq!(
        MasterVolume::db_half_steps(37),
        Err("master volume is outside the half-step range")
    );
    assert_eq!(
        encode(&ReceiverIntent::Volume(MasterVolume::DbHalfSteps(37))),
        Err(AvrProtocolError::InvalidVolume("volume is outside X3800H range"))
    );
}

#[test]
fn arbitrary_sound_modes_must_be_printable_and_non_blank() {
    assert_eq!(
        encode(&ReceiverIntent::SoundMode(SoundModeIntent::Select("DOLBY SURROUND".into())))
            .unwrap()
            .as_str(),
        "MSDOLBY SURROUND"
    );
    for bad in ["", "   ", "A\rB"] {
        assert_eq!(
            encode(&ReceiverIntent::SoundMode(SoundModeIntent::Select(bad.into()))),
            Err(AvrProtocolError::InvalidCommand(
                "sound mode is empty or contains controls"
            ))
        );
    }
}

#[test]
fn written_commands_read_back_as_requested_state() {
    let intents = [
        ReceiverIntent::SystemPower(SystemPower::Standby),
        ReceiverIntent::MainZonePower(ZonePower::Off),
        ReceiverIntent::Zone2Power(ZonePower::On),
        ReceiverIntent::Mute(MuteState::On),
        ReceiverIntent::Volume(MasterVolume::Minimum),
        ReceiverIntent::Volume(MasterVolume::db_half_steps(-78).unwrap()),
        ReceiverIntent::Volume(MasterVolume::db_half_steps(36).unwrap()),
        ReceiverIntent::Volume(MasterVolume::db_half_steps(-159).unwrap()),
    ];
    for intent in intents.iter() {
        let text = encode(intent).unwrap();
        let frame = parse(text.as_str()).unwrap();
        let expected = match intent {
            ReceiverIntent::SystemPower(p) => X3800hFrame::SystemPower(*p),
            ReceiverIntent::MainZonePower(p) => X3800hFrame::MainZonePower(*p),
            ReceiverIntent::Zone2Power(p) => X3800hFrame::Zone2Power(*p),
            ReceiverIntent::Mute(m) => X3800hFrame::Mute(*m),
            ReceiverIntent::Volume(v) => X3800hFrame::Volume(*v),
            _ => unreachable!(),
        };
        assert_eq!(frame, expected);
    }
    let source = encode(&ReceiverIntent::Source(SourceId::new("Game").unwrap())).unwrap();
    assert_eq!(
        parse(source.as_str()).unwrap(),
        X3800hFrame::Source(SourceId::new("GAME").unwrap())
    );
    let mode = encode(&ReceiverIntent::SoundMode(SoundModeIntent::Stereo)).unwrap();
    assert_eq!(
        parse(mode.as_str()).unwrap(),
        X3800hFrame::SoundMode(SoundModeStatus {
            id: "STEREO".into(),
            raw: "STEREO".into()
        })
    );
}

#[test]
fn frames_outside_the_profile_are_kept_as_unknown_or_refused() {
    assert_eq!(parse("MV---").unwrap(), X3800hFrame::VolumeUnavailable);
    assert_eq!(parse("XYZ").unwrap(), X3800hFrame::Unknown("XYZ".into()));
    assert_eq!(parse("MS").unwrap(), X3800hFrame::Unknown("MS".into()));
    assert!(matches!(parse("SI"), Err(AvrProtocolError::MalformedResponse(_))));
    assert_eq!(
        parse("MVAB"),
        Err(AvrProtocolError::InvalidVolume("invalid X3800H volume frame"))
    );
    assert_eq!(
        parse("MV99"),
        Err(AvrProtocolError::InvalidVolume(
            "master volume is outside the half-step range"
        ))
    );
    assert_eq!(parse("MV00").unwrap_err(), AvrProtocolError::InvalidVolume(
        "master volume is outside the half-step range"
    ));
}

#[test]
fn canonical_sources_follow_the_validated_allowlist() {
    assert_eq!(canonical_x3800h_source("tv audio"), Some("TV AUDIO".to_string()));
    assert_eq!(canonical_x3800h_source("Aux7"), Some("AUX7".to_string()));
    assert_eq!(canonical_x3800h_source("NET"), None);
}

#[test]
fn controls_disturb_their_dependent_fields() {
    assert_eq!(dependency_fields(CoreField::SystemPower).len(), 7);
    assert_eq!(
        dependency_fields(CoreField::Source),
        vec![CoreField::Source, CoreField::SoundMode]
    );
    assert_eq!(dependency_fields(CoreField::Mute), vec![CoreField::Mute]);
    assert_eq!(intent_for_field(CoreField::Volume).field(), CoreField::Volume);
}

#[test]
fn canonical_volume_maps_to_main_zone_codes() {
    let min = volume(MasterVolume::Minimum);
    assert_eq!((min.code(), min.db_tenths()), ("MIN", 0));
    let odd = volume(MasterVolume::db_half_steps(-59).unwrap());
    assert_eq!((odd.code(), odd.db_tenths()), ("505", -295));
    let even = volume(MasterVolume::db_half_steps(36).unwrap());
    assert_eq!((even.code(), even.db_tenths()), ("98", 180));
    assert_eq!(
        master_volume(VolumeLevel::new(505).unwrap()),
        MasterVolume::DbHalfSteps(-60)
    );
    assert_eq!(
        master_volume(VolumeLevel::new(0).unwrap()),
        MasterVolume::Minimum
    );
}

#[test]
fn a_control_is_observed_written_once_and_confirmed() {
    let intent = ReceiverIntent::Mute(MuteState::On);
    let (phase, action) = operate_step(7, &intent, OperatePhase::Admission, OperateEvent::Begin { cancelled: false, admission: Ok(()) });
    assert_eq!(phase, OperatePhase::Preflight);
    assert!(matches!(action, OperateAction::Observe(ref c) if c.as_str() == "MU?"));
    let (phase, action) = operate_step(7, &intent, phase, OperateEvent::Observed { matches: Ok(false), cancelled: false, window_open: true });
    assert_eq!(phase, OperatePhase::Dispatching);
    assert!(matches!(action, OperateAction::Dispatch(ref c) if c.as_str() == "MUON"));
    let (phase, _) = operate_step(7, &intent, phase, OperateEvent::Dispatched(DispatchResult::Written));
    assert_eq!(phase, OperatePhase::Confirming);
    let (phase, action) = operate_step(7, &intent, phase, OperateEvent::Observed { matches: Ok(false), cancelled: false, window_open: true });
    assert_eq!(phase, OperatePhase::Confirming);
    assert!(matches!(action, OperateAction::WaitThenObserve(_)));
    let (phase, action) = operate_step(7, &intent, phase, OperateEvent::Observed { matches: Ok(true), cancelled: false, window_open: true });
    assert_eq!(phase, OperatePhase::Finished);
    assert_eq!(action, OperateAction::Finish(OperationOutcome::ObservedRequestedValue {
        operation: 7,
        dispatch: DispatchCertainty::CompleteWrite,
        observation: "post-dispatch receiver observation".into(),
    }));
}

#[test]
fn ambiguous_writes_and_failed_preflights_are_not_successes() {
    let intent = ReceiverIntent::Mute(MuteState::Off);
    let (_, action) = operate_step(1, &intent, OperatePhase::Preflight, OperateEvent::Observed { matches: Err("timed out".into()), cancelled: false, window_open: true });
    assert_eq!(action, OperateAction::Finish(OperationOutcome::RejectedBeforeDispatch { operation: 1, reason: "preflight failed: timed out".into() }));
    let (phase, _) = operate_step(1, &intent, OperatePhase::Dispatching, OperateEvent::Dispatched(DispatchResult::Failed("broken pipe".into())));
    let (_, action) = operate_step(1, &intent, phase, OperateEvent::Observed { matches: Ok(false), cancelled: false, window_open: true });
    assert_eq!(action, OperateAction::Finish(OperationOutcome::Indeterminate {
        operation: 1,
        dispatch: DispatchCertainty::Unknown,
        reason: "write began but delivery is ambiguous: broken pipe".into(),
    }));
    let (_, action) = operate_step(1, &intent, OperatePhase::Admission, OperateEvent::Begin { cancelled: true, admission: Ok(()) });
    assert_eq!(action, OperateAction::Finish(OperationOutcome::Cancelled { operation: 1 }));
}

#[test]
fn due_reconciliation_is_served_after_eight_requests_or_half_a_second() {
    let state = ActorState { cycle: 3, user_action_count: 8, user_work_started_ms: 1000 };
    let (next, actions) = actor_step(state, ActorEvent::Check { reconciliation_due: true, now_ms: 1001 });
    assert_eq!(actions, vec![ActorAction::ServiceDebt]);
    assert_eq!(next.user_action_count, 0);
    assert_eq!(next.user_work_started_ms, 1001);
    let fresh = ActorState { cycle: 3, user_action_count: 1, user_work_started_ms: 1000 };
    let (_, actions) = actor_step(fresh, ActorEvent::Check { reconciliation_due: true, now_ms: 1499 });
    assert_eq!(actions, vec![ActorAction::Select]);
    let (_, actions) = actor_step(fresh, ActorEvent::Check { reconciliation_due: true, now_ms: 1500 });
    assert_eq!(actions, vec![ActorAction::ServiceDebt]);
    let (_, actions) = actor_step(state, ActorEvent::Check { reconciliation_due: false, now_ms: 9000 });
    assert_eq!(actions, vec![ActorAction::Select]);
}

#[test]
fn a_control_merges_debt_for_its_dependent_fields_first() {
    let state = ActorState { cycle: 3, user_action_count: 0, user_work_started_ms: 0 };
    let (next, actions) = actor_step(state, ActorEvent::Operate { field: CoreField::Source, requester_waiting: true });
    assert_eq!(next.cycle, 4);
    assert_eq!(next.user_action_count, 1);
    assert_eq!(actions, vec![
        ActorAction::MergeDebt(CoreField::Source, SyncCause::LocalControl, 4),
        ActorAction::MergeDebt(CoreField::SoundMode, SyncCause::LocalControl, 4),
        ActorAction::RunOperation(4),
    ]);
    let (_, actions) = actor_step(state, ActorEvent::Operate { field: CoreField::Source, requester_waiting: false });
    assert_eq!(actions, vec![ActorAction::RunOperation(4)]);
}
