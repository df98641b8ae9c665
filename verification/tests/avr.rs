use denon_avr_remote::avr::{parse_line, AvrCommand, AvrLine, VolumeCode};
use denon_avr_remote::domain::{AudioContextField, MainZoneEvent as DomainEvent, MainZoneField, MainZoneValue, PowerState, Input, MainZoneControl, MuteState, SurroundMode, VolumeLevel};
use denon_avr_remote::protocol::avr::command::{encode_volume, query_command, AvrProtocolError, encode_control};
use denon_avr_remote::protocol::avr::response::{get_command_family, parse_audio_context_response, parse_main_zone_event, parse_main_zone_response, response_matches};
use denon_avr_remote::session::{session_event, SessionEvent};
use denon_avr_remote::state::{parse_event, Freshness, MainZoneEvent, MainZoneState, StateAuthority};
use denon_avr_remote::status::{parse_volume, query_main_zone, status_from_reply_list, status_query_commands, render, AvrTransport, MainZoneStatus, StatusField, render_field, ExchangeLog};

#[test]
fn command_is_carriage_return_terminated() {
    let command = AvrCommand::new("SICD").unwrap();
    assert_eq!(command.as_bytes(), b"SICD\r");
}

#[test]
fn command_rejects_embedded_line_breaks() {
    assert!(AvrCommand::new("SI\rCD").is_err());
}

#[test]
fn volume_code_uses_reference_zero_db_encoding() {
    assert_eq!(VolumeCode::from_db_tenths(0).unwrap().command(), "MV80");
    assert_eq!(VolumeCode::from_db_tenths(5).unwrap().command(), "MV805");
    assert_eq!(VolumeCode::from_db_tenths(-5).unwrap().command(), "MV795");
}

#[test]
fn framed_commands_read_back_as_themselves() {
    let command = AvrCommand::new("MV805").unwrap();
    assert_eq!(parse_line(&command.as_bytes()).unwrap(), AvrLine::Raw("MV805".into()));
    assert!(parse_line(b"\r").is_err());
}

#[test]
fn preserves_unknown_sync_unsolicited_lines() {
    assert_eq!(
        session_event("X9UNKNOWN"),
        SessionEvent::MainZone(DomainEvent::Unknown("X9UNKNOWN".into()))
    );
}

#[test]
fn frames_queries_and_parses_typed_values() {
    assert_eq!(query_command(MainZoneField::Power).as_bytes(), b"PW?\r");
    assert_eq!(
        parse_main_zone_response(MainZoneField::Power, "PWON").unwrap(),
        MainZoneValue::Power(PowerState::On)
    );
    let MainZoneValue::Volume(volume) =
        parse_main_zone_response(MainZoneField::Volume, "MV795").unwrap()
    else {
        panic!("expected volume");
    };
    assert_eq!(volume.db_tenths(), -5);
}

#[test]
fn mv_unknown_is_typed_unavailable() {
    assert!(matches!(
        parse_main_zone_response(MainZoneField::Volume, "MV---"),
        Err(AvrProtocolError::Unavailable("volume is unavailable"))
    ));
}

#[test]
fn preserves_unknown_events() {
    assert_eq!(parse_main_zone_event("MVMAX 615"), DomainEvent::Unknown("MVMAX 615".into()));
}

#[test]
fn encodes_volume_in_half_db_steps() {
    assert_eq!(encode_volume(5).unwrap().as_str(), "MV805");
    assert!(encode_volume(3).is_err());
}

#[test]
fn encoded_volumes_read_back_as_the_same_volume() {
    for db_tenths in [-800i16, -795, -5, 0, 5, 100, 175, 180] {
        let command = encode_volume(db_tenths).unwrap();
        let MainZoneValue::Volume(volume) =
            parse_main_zone_response(MainZoneField::Volume, command.as_str()).unwrap()
        else {
            panic!("expected volume");
        };
        assert_eq!(volume.db_tenths(), db_tenths);
    }
    assert!(encode_volume(190).is_err());
    let whole_db_five = encode_volume(-350).unwrap();
    assert_eq!(whole_db_five.as_str(), "MV45");
    let MainZoneValue::Volume(volume) =
        parse_main_zone_response(MainZoneField::Volume, whole_db_five.as_str()).unwrap()
    else {
        panic!("expected volume");
    };
    assert_eq!((volume.code(), volume.db_tenths()), ("45", -350));
}

#[test]
fn two_character_codes_ending_in_five_are_whole_decibels() {
    let code = VolumeCode::from_db_tenths(-50).unwrap();
    assert_eq!(code.command(), "MV75");
    assert_eq!(parse_volume("MV75").unwrap(), "code 75 (-5.0 dB)");
    assert_eq!(parse_volume("MV795").unwrap(), "code 795 (-0.5 dB)");
    assert_eq!(parse_volume("MV80").unwrap(), "code 80 (0.0 dB)");
    assert!(parse_volume("MV---").is_err());
    assert_eq!(denon_avr_remote::response::parse_volume("MV---").unwrap(), "unknown");
    assert_eq!(denon_avr_remote::response::parse_volume("MV75").unwrap(), "code 75 (-5.0 dB)");
    assert!(parse_volume("MV999").is_err());
    let MainZoneValue::Volume(volume) =
        parse_main_zone_response(MainZoneField::Volume, "MV75").unwrap()
    else {
        panic!("expected volume");
    };
    assert_eq!(volume.db_tenths(), -50);
}

#[test]
fn response_family_is_the_command_prefix_before_query_marker() {
    assert_eq!(get_command_family("SI?"), "SI");
    assert_eq!(get_command_family("Z2?"), "Z2");
    assert_eq!(get_command_family("PSMULTEQ: ?"), "PSMULTEQ:");
    assert_eq!(get_command_family("PSDYNEQ ?"), "PSDYNEQ");
    assert_eq!(get_command_family("CUSTOM"), "CUSTOM");
}

#[test]
fn response_matching_rejects_wrong_or_malformed_families() {
    assert!(response_matches("SI", "SICD"));
    assert!(!response_matches("SI", "MSSTEREO"));
    assert!(response_matches("MV", "MV---"));
    assert!(response_matches("MV", "MV805"));
    assert!(!response_matches("MV", "MV80.5"));
    assert!(!response_matches("MV", "MVMAX 615"));
    assert!(response_matches("MSQUICK1", "MSQUICK1"));
    assert!(!response_matches("MSQUICK1", "MSQUICKX"));
}

#[test]
fn parses_audio_context_query_responses() {
    assert_eq!(
        parse_audio_context_response(AudioContextField::InputMode, "SDHDMI").unwrap().as_str(),
        "HDMI"
    );
    assert_eq!(
        parse_audio_context_response(AudioContextField::DigitalMode, "DCAUTO").unwrap().as_str(),
        "AUTO"
    );
    assert!(parse_audio_context_response(AudioContextField::DigitalMode, "MSSTEREO").is_err());
}

#[test]
fn parses_validated_events_and_preserves_unknown_lines() {
    assert_eq!(parse_event("PWON"), MainZoneEvent::Power("on".into()));
    assert_eq!(parse_event("SICD"), MainZoneEvent::Input("CD".into()));
    assert_eq!(parse_event("MV805"), MainZoneEvent::Volume("code 805 (0.5 dB)".into()));
    assert_eq!(parse_event("MVMAX 615"), MainZoneEvent::Unknown("MVMAX 615".into()));
}

#[test]
fn reducer_supports_partial_ordered_updates_and_invalidation() {
    let mut state = MainZoneState::default();
    state.apply(MainZoneEvent::Input("CD".into()));
    assert_eq!(state.input.as_deref(), Some("CD"));
    assert_eq!(state.power, None);
    assert_eq!(state.authority, StateAuthority::Event);
    state.invalidate();
    assert_eq!(state.freshness, Freshness::Invalidated);
    assert_eq!(state.input, None);
    state.apply_authoritative(MainZoneEvent::Power("on".into()));
    assert_eq!(state.authority, StateAuthority::Authoritative);
}

#[test]
fn later_events_win_and_unknown_lines_change_nothing() {
    let mut state = MainZoneState::default();
    state.apply(MainZoneEvent::Volume("code 80 (0.0 dB)".into()));
    state.apply(MainZoneEvent::Mute("on".into()));
    state.apply(MainZoneEvent::Volume("code 805 (0.5 dB)".into()));
    let before = state.clone();
    state.apply(MainZoneEvent::Unknown("Z2ON".into()));
    assert_eq!(state, before);
    assert_eq!(state.volume.as_deref(), Some("code 805 (0.5 dB)"));
    assert_eq!(state.mute.as_deref(), Some("on"));
}

struct Fake {
    responses: Vec<Result<String, String>>,
    commands: Vec<String>,
}

impl AvrTransport for Fake {
    fn exchanges(&self) -> ExchangeLog {
        unreachable!("the exchange log is a specification value")
    }

    fn query(&mut self, command: &str) -> Result<String, String> {
        self.commands.push(command.to_owned());
        self.responses.remove(0)
    }
}

#[test]
fn queries_fields_in_order_and_preserves_partial_failures() {
    let mut fake = Fake {
        responses: vec![
            Ok("PWON".into()),
            Ok("SICD".into()),
            Err("timed out".into()),
            Ok("MUOFF".into()),
            Ok("MSSTEREO".into()),
        ],
        commands: Vec::new(),
    };
    let status = query_main_zone(&mut fake);
    assert_eq!(fake.commands, ["PW?", "SI?", "MV?", "MU?", "MS?"]);
    assert_eq!(status.power.value.as_deref(), Some("on"));
    assert_eq!(status.input.value.as_deref(), Some("CD"));
    assert_eq!(status.volume.value, None);
    assert_eq!(status.mute.value.as_deref(), Some("off"));
    assert_eq!(status.surround_mode.value.as_deref(), Some("STEREO"));
}

#[test]
fn renders_unavailable_field() {
    let status = MainZoneStatus {
        power: StatusField::unavailable("timed out".into()),
        input: StatusField::value("CD".into()),
        volume: StatusField::value("code 80 (0.0 dB)".into()),
        mute: StatusField::value("off".into()),
        surround_mode: StatusField::value("STEREO".into()),
    };
    assert!(render(&status).contains("Power: unavailable (timed out)"));
}

#[test]
fn decodes_reference_volume_codes_for_humans() {
    assert_eq!(parse_volume("MV80").unwrap(), "code 80 (0.0 dB)");
    assert_eq!(parse_volume("MV795").unwrap(), "code 795 (-0.5 dB)");
    assert!(parse_volume("MV999").is_err());
}

#[test]
fn controls_are_encoded_in_their_query_family() {
    assert_eq!(encode_control(&MainZoneControl::Power(PowerState::Standby)).unwrap().as_str(), "PWSTANDBY");
    assert_eq!(encode_control(&MainZoneControl::Input(Input::new("CD").unwrap())).unwrap().as_str(), "SICD");
    assert_eq!(encode_control(&MainZoneControl::Volume(VolumeLevel::new(505).unwrap())).unwrap().as_str(), "MV505");
    assert_eq!(encode_control(&MainZoneControl::Volume(VolumeLevel::new(80).unwrap())).unwrap().as_str(), "MV08");
    assert_eq!(encode_control(&MainZoneControl::Mute(MuteState::Off)).unwrap().as_str(), "MUOFF");
    assert_eq!(
        encode_control(&MainZoneControl::SurroundMode(SurroundMode::new("PURE DIRECT").unwrap())).unwrap().as_str(),
        "MSPURE DIRECT"
    );
}

#[test]
fn one_field_renders_as_its_status_line() {
    let status = MainZoneStatus {
        power: StatusField::unavailable("timed out".into()),
        input: StatusField::value("CD".into()),
        volume: StatusField::value("code 80 (0.0 dB)".into()),
        mute: StatusField::value("off".into()),
        surround_mode: StatusField::value("STEREO".into()),
    };
    assert_eq!(render_field(&status, MainZoneField::SurroundMode), "Surround mode: STEREO");
    assert_eq!(render_field(&status, MainZoneField::Power), "Power: unavailable (timed out)");
}

#[test]
fn status_queries_and_replies_pair_up_in_order() {
    assert_eq!(status_query_commands(), vec!["PW?", "SI?", "MV?", "MU?", "MS?"]);
    let status = status_from_reply_list(vec![
        Ok("PWSTANDBY".to_string()),
        Err("timed out".to_string()),
        Ok("MV75".to_string()),
        Ok("MUON".to_string()),
        Ok("MSDIRECT".to_string()),
    ]);
    assert_eq!(status.power.value.as_deref(), Some("standby"));
    assert_eq!(status.input.error.as_deref(), Some("timed out"));
    assert_eq!(status.volume.value.as_deref(), Some("code 75 (-5.0 dB)"));
    assert_eq!(status.mute.value.as_deref(), Some("on"));
    assert_eq!(status.surround_mode.value.as_deref(), Some("DIRECT"));
}
