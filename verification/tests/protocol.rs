use denon_avr_remote::domain::eq_status::{EqFeature, EqState};
use denon_avr_remote::domain::information::ChannelSlotState;
use denon_avr_remote::domain::quick_select::QuickSelectSlot;
use denon_avr_remote::domain::source::{CatalogResponseEvidence, SourceVisibility};
use denon_avr_remote::domain::{FieldStatus, Freshness};
use denon_avr_remote::protocol::app_command::{
    parse_app_command_response, AppCommandProtocolError, AppCommandQuery, AppCommandRequest,
    AppCommandResponse,
};
use denon_avr_remote::protocol::avr::quick_select_eq::{
    eq_status_query, parse_eq_status, quick_select_command,
};
use denon_avr_remote::protocol::heos::{parse_heos_line, HeosCommand, HeosLine, HeosProtocolError};
use denon_avr_remote::protocol::http_information::{
    information_commands, missing_information_commands, parse_http_information,
};
use denon_avr_remote::protocol::quick_select_name::{
    parse_quick_select_names, QuickSelectNameProtocolError,
};
use denon_avr_remote::protocol::source_catalog::{
    parse_source_catalog_response, source_catalog_request_xml, SourceCatalogProtocolError,
    SOURCE_CATALOG_REQUEST_XML,
};

#[test]
fn audio_information_request_is_read_only_and_well_formed() {
    let request = AppCommandRequest::audio_information();
    let xml = request.to_xml().unwrap();
    assert_eq!(request.queries().len(), 5);
    assert!(xml.starts_with("<?xml version=\"1.0\" encoding=\"utf-8\"?>"));
    assert!(xml.contains("<name>GetAudioInfo</name>"));
    assert!(xml.contains("<name>GetInputSignal</name>"));
    assert!(xml.contains("<name>GetActiveSpeaker</name>"));
    assert!(xml.contains("<name>GetVideoInfo</name>"));
    assert!(xml.contains("<name>GetAudyssyInfo</name>"));
    assert!(xml.contains("<param name=\"inputsigall\"></param>"));
    assert!(xml.contains("\n<tx>\n"));
    assert!(xml.contains("\n<cmd id=\"3\">\n"));
    assert!(!xml.contains("Set"));
}

#[test]
fn request_writer_escapes_dynamic_identifiers() {
    let request =
        AppCommandRequest::new(vec![AppCommandQuery::new("Get&A", &["a&b"]).unwrap()]).unwrap();
    let xml = request.to_xml().unwrap();
    assert!(xml.contains("<name>Get&amp;A</name>"));
    assert!(xml.contains("name=\"a&amp;b\""));
}

#[test]
fn request_rejects_empty_and_control_character_identifiers() {
    assert_eq!(AppCommandRequest::new(Vec::new()), Err(AppCommandProtocolError::EmptyRequest));
    assert_eq!(AppCommandQuery::new("Get", &[]), Err(AppCommandProtocolError::EmptyParameterList));
    assert_eq!(
        AppCommandQuery::new("Get\nBad", &["field"]),
        Err(AppCommandProtocolError::InvalidIdentifier("command name"))
    );
    assert_eq!(
        AppCommandQuery::new("SetInputFunction", &["input"]),
        Err(AppCommandProtocolError::StateChangingQuery)
    );
}

#[test]
fn parses_live_x3800h_shape_losslessly() {
    let xml = r#"<?xml version="1.0" encoding="utf-8" ?>
<rx><cmd><name>GetAudioInfo</name><list>
<param name="signal" control="1">PCM                  </param>
<param name="fs" control="1">48 kHz</param>
</list></cmd><cmd><name>GetActiveSpeaker</name><list>
<param name="activespb2" control="2" future="kept">FL</param>
</list></cmd></rx>"#;
    let response = parse_app_command_response(xml).unwrap();
    assert_eq!(response.commands.len(), 2);
    assert_eq!(
        response.command("GetAudioInfo").unwrap().parameters[0].value,
        "PCM                  "
    );
    let active = &response.command("GetActiveSpeaker").unwrap().parameters[0];
    assert_eq!(active.control_code(), Some(2));
    assert_eq!(
        active.attributes.iter().find(|(key, _)| key == "future").map(|(_, value)| value.as_str()),
        Some("kept")
    );
    assert_eq!(active.trimmed_value(), "FL");
    assert_eq!(response.command("GetActiveSpeaker").unwrap().parameters_with_control(2).len(), 1);
}

#[test]
fn rejects_structurally_invalid_responses() {
    assert_eq!(parse_app_command_response(" "), Err(AppCommandProtocolError::MissingResponse));
    assert_eq!(
        parse_app_command_response("<tx></tx>"),
        Err(AppCommandProtocolError::MissingResponseRoot)
    );
    assert_eq!(
        parse_app_command_response("<rx><param name=\"fs\">48K</param></rx>"),
        Err(AppCommandProtocolError::ParameterOutsideCommand)
    );
    assert_eq!(
        parse_app_command_response("<rx><cmd><list></list></cmd></rx>"),
        Err(AppCommandProtocolError::MissingCommandName)
    );
    assert_eq!(
        parse_app_command_response("<rx></rx><cmd><name>GetLate</name></cmd>"),
        Err(AppCommandProtocolError::CommandOutsideResponseRoot)
    );
    assert_eq!(
        parse_app_command_response("<rx></rx><rx></rx>"),
        Err(AppCommandProtocolError::MultipleResponseRoots)
    );
    assert_eq!(
        parse_app_command_response("<rx/>"),
        Ok(AppCommandResponse { raw_xml: "<rx/>".to_owned(), commands: Vec::new() })
    );
}

#[test]
fn quick_select_is_one_command() {
    assert_eq!(quick_select_command(QuickSelectSlot::new(2).unwrap()).as_str(), "MSQUICK2");
}

#[test]
fn eq_states_do_not_collapse_configured_values() {
    assert_eq!(
        parse_eq_status(EqFeature::DynamicEqReferenceLevel, "PSREFLEV 10").unwrap(),
        EqState::Configured("10".into())
    );
    assert_eq!(
        parse_eq_status(EqFeature::MultEqXt32, "PSMULTEQ:AUDYSSEY").unwrap(),
        EqState::Configured("AUDYSSEY".into())
    );
}

#[test]
fn eq_queries_preserve_documented_parameter_spacing() {
    assert_eq!(eq_status_query(EqFeature::MultEqXt32).as_str(), "PSMULTEQ: ?");
    assert_eq!(eq_status_query(EqFeature::DynamicEq).as_str(), "PSDYNEQ ?");
    assert_eq!(eq_status_query(EqFeature::DynamicVolume).as_bytes(), b"PSDYNVOL ?\r");
}

#[test]
fn malformed_and_unknown_eq_responses_remain_honest() {
    assert_eq!(parse_eq_status(EqFeature::DiracLive, "PSDIRAC UNKNOWN").unwrap(), EqState::Unknown);
    assert!(parse_eq_status(EqFeature::DynamicEq, "MSSTEREO").is_err());
    assert_eq!(
        parse_eq_status(EqFeature::DynamicVolume, "PSDYNVOL UNSUPPORTED").unwrap(),
        EqState::Unsupported
    );
    assert!(parse_eq_status(EqFeature::DynamicEq, "PSDYNEQON").is_err());
    assert!(matches!(
        parse_eq_status(EqFeature::DynamicVolume, "PSDYNVOL N/A").unwrap(),
        EqState::NotApplicable(_)
    ));
}

#[test]
fn eq_values_ignore_ascii_case_and_surrounding_space() {
    assert_eq!(parse_eq_status(EqFeature::DynamicEq, "PSDYNEQ on").unwrap(), EqState::On);
    assert_eq!(parse_eq_status(EqFeature::AudysseyLfc, "PSLFC  OFF ").unwrap(), EqState::Off);
    assert_eq!(parse_eq_status(EqFeature::DynamicEq, "PSDYNEQ 1").unwrap(), EqState::On);
    assert_eq!(
        parse_eq_status(EqFeature::DynamicEq, "PSDYNEQ   ").unwrap_err().message(),
        "EQ response has no value"
    );
    assert_eq!(
        parse_eq_status(EqFeature::DynamicEq, "PSDYNEQ").unwrap_err().message(),
        "EQ response has no parameter separator"
    );
}

#[test]
fn command_is_crlf_terminated() {
    let command = HeosCommand::new("heos://player/get_players").unwrap();
    assert_eq!(command.as_bytes(), b"heos://player/get_players\r\n");
}

#[test]
fn command_requires_heos_scheme() {
    assert!(HeosCommand::new("player/get_players").is_err());
}

#[test]
fn command_rejects_line_breaks() {
    assert!(matches!(
        HeosCommand::new("heos://player/get_players\n"),
        Err(HeosProtocolError::InvalidCommand)
    ));
}

#[test]
fn parser_preserves_json_and_raw_lines() {
    assert_eq!(
        parse_heos_line(b"{\"heos\":{\"result\":\"success\"}}\r\n").unwrap(),
        HeosLine::Json("{\"heos\":{\"result\":\"success\"}}".into())
    );
    assert_eq!(
        parse_heos_line(b"event/player_state_changed\r\n").unwrap(),
        HeosLine::Raw("event/player_state_changed".into())
    );
}

#[test]
fn parser_rejects_invalid_utf8_and_empty_lines() {
    assert!(matches!(parse_heos_line(&[0xff]), Err(HeosProtocolError::InvalidUtf8)));
    assert!(matches!(parse_heos_line(b"\r\n"), Err(HeosProtocolError::EmptyLine)));
}

#[test]
fn maps_slot_controls_without_exposing_the_codes() {
    let reply = parse_app_command_response("<rx><cmd><name>GetInputSignal</name><param name=\"a\" control=\"2\">FL</param><param name=\"b\" control=\"1\">LFE</param><param name=\"c\" control=\"9\">ZZ</param></cmd></rx>").unwrap();
    let info = parse_http_information(&reply, 2, 0);
    let FieldStatus::Value(slots) = info.input_slots else { panic!() };
    assert_eq!(slots[0].state, ChannelSlotState::Active);
    assert_eq!(slots[1].state, ChannelSlotState::Available);
    assert_eq!(slots[2].state, ChannelSlotState::Unknown);
    assert_eq!(info.freshness, Freshness::Partial);
}

#[test]
fn information_commands_are_reported_missing_until_answered() {
    assert_eq!(information_commands().len(), 5);
    let reply = parse_app_command_response("<rx><cmd><name>GetInputSignal</name></cmd></rx>").unwrap();
    let missing = missing_information_commands(&reply);
    assert_eq!(missing.len(), 4);
    assert!(!missing.contains(&"GetInputSignal"));
}

#[test]
fn parses_padded_names_and_sources() {
    let parsed = parse_quick_select_names("<rx><cmd><Name1>Movie   </Name1><Name2>Game</Name2><Name3>N3</Name3><Name4>N4</Name4><Source1>BD</Source1></cmd></rx>").unwrap();
    assert_eq!(parsed.names[0].as_deref(), Some("Movie   "));
    assert_eq!(parsed.sources[0].as_deref(), Some("BD"));
    assert!(parsed.complete);
}

#[test]
fn rejects_empty_or_missing_command() {
    assert_eq!(parse_quick_select_names(" "), Err(QuickSelectNameProtocolError::MissingResponse));
    assert!(parse_quick_select_names("<rx/>").is_err());
}

#[test]
fn request_is_the_exact_read_only_candidate_shape() {
    assert_eq!(source_catalog_request_xml(), SOURCE_CATALOG_REQUEST_XML);
    assert!(!source_catalog_request_xml().contains("Set"));
}

#[test]
fn parses_escaped_labels_and_visibility_without_hiding_unknowns() {
    let parsed = parse_source_catalog_response(
        "<rx><functionrename><list><name>GAME</name><rename>PlayStation &amp; TV</rename></list></functionrename><functiondelete><list><FuncName>GAME</FuncName><use>1</use></list><list><FuncName>AUX1</FuncName><use>0</use></list><list><FuncName>CD</FuncName><use>x</use></list></functiondelete></rx>",
    )
    .unwrap();
    assert_eq!(parsed.evidence, CatalogResponseEvidence::Complete);
    let game = parsed.entries.iter().find(|entry| entry.id.as_str() == "GAME").unwrap();
    assert_eq!(game.display_name.as_deref(), Some("PlayStation & TV"));
    assert_eq!(game.visibility, SourceVisibility::Shown);
    assert_eq!(
        parsed.entries.iter().find(|entry| entry.id.as_str() == "AUX1").unwrap().visibility,
        SourceVisibility::Hidden
    );
    assert_eq!(
        parsed.entries.iter().find(|entry| entry.id.as_str() == "CD").unwrap().visibility,
        SourceVisibility::Unknown
    );
}

#[test]
fn rejects_conflicting_rows() {
    assert!(matches!(
        parse_source_catalog_response("<rx><functiondelete><list><FuncName>GAME</FuncName><use>0</use></list><list><FuncName>GAME</FuncName><use>1</use></list></functiondelete></rx>"),
        Err(SourceCatalogProtocolError::ConflictingEntry(_))
    ));
}

#[test]
fn rejects_malformed_xml_instead_of_treating_it_as_hidden() {
    assert!(matches!(
        parse_source_catalog_response("<rx><functiondelete>"),
        Err(SourceCatalogProtocolError::MalformedXml(_))
    ));
}
