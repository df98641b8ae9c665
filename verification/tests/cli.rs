use denon_avr_remote::cli::{parse_args, parse_volume_level, usage, Command, Operation, Resource, set_decision, stale_version_message, SetDecision, saved_write_identity, write_target, Selection, WriteTarget, receiver_lines, resource_field, target_text};
use denon_avr_remote::domain::{MainZoneControl, MainZoneValue, MuteState, MainZoneField};
use denon_avr_remote::domain::receiver::{ConfiguredReceivers, ReceiverIdentity, DiscoveredReceiver, ReceiverEndpoint};

fn args(list: &[&str]) -> Vec<String> {
    list.iter().map(|arg| arg.to_string()).collect()
}

#[test]
fn parses_reads_and_set() {
    assert!(matches!(
        parse_args(&args(&["get", "capabilities"])),
        Ok(Command::Get(Resource::Capabilities, _))
    ));
    assert!(matches!(
        parse_args(&args(&["set", "volume", "50.5", "--resource-version", "12"])),
        Ok(Command::Change { .. })
    ));
}

#[test]
fn parses_volume_levels() {
    assert_eq!(parse_volume_level("50").unwrap().to_text(), "50.0");
    assert_eq!(parse_volume_level("50.5").unwrap().to_text(), "50.5");
    assert!(parse_volume_level("50.1").is_err());
    assert!(parse_volume_level("100.5").is_err());
}

#[test]
fn accepts_automatic_versioning() {
    assert!(matches!(
        parse_args(&args(&["set", "power", "on"])),
        Ok(Command::Change { resource_version: None, .. })
    ));
}

#[test]
fn supports_aliases() {
    assert_eq!(Resource::parse("level").unwrap(), Resource::Volume);
    assert_eq!(Operation::parse("surround-mode").unwrap(), Operation::Surround);
}

#[test]
fn help_lists_get_resources_and_selectors() {
    assert!(matches!(parse_args(&args(&["help"])), Ok(Command::Help)));
    let stdout = usage();
    for resource in ["receivers", "status", "power", "input", "volume", "mute", "surround"] {
        assert!(stdout.contains(resource), "missing {resource}");
    }
    assert!(stdout.contains("--host HOST"));
    assert!(stdout.contains("--receiver N"));
    assert!(!stdout.contains("discover            "));
    assert!(!stdout.contains("avr <command>"));
    assert!(!stdout.contains("heos <command>"));
}

#[test]
fn each_receiver_backed_resource_accepts_new_grammar() {
    for resource in ["status", "power", "input", "volume", "mute", "surround"] {
        let error = parse_args(&args(&["get", resource, "--receiver", "nope"])).unwrap_err();
        assert!(error.contains("--receiver requires"), "{resource}");
    }
}

#[test]
fn receivers_resource_accepts_new_grammar_without_running_network() {
    let error = parse_args(&args(&["get", "receivers", "--host", "127.0.0.1"])).unwrap_err();
    assert!(error.contains("get receivers does not accept"));
}

#[test]
fn selectors_are_validated() {
    let error = parse_args(&args(&["get", "status", "--receiver", "0"])).unwrap_err();
    assert!(error.contains("positive number"));
    let error =
        parse_args(&args(&["get", "status", "--host", "127.0.0.1", "--receiver", "1"])).unwrap_err();
    assert!(error.contains("cannot be combined"));
}

#[test]
fn old_top_level_commands_are_rejected() {
    for command in ["discover", "status", "avr", "heos", "volume"] {
        let error = parse_args(&args(&[command])).unwrap_err();
        assert!(error.contains("unknown command"), "{command}");
    }
}

#[test]
fn set_options_are_read_in_any_order() {
    let command =
        parse_args(&args(&["set", "mute", "on", "--dry-run", "--receiver", "2"])).unwrap();
    let Command::Change { operation, value, selection, resource_version, dry_run } = command else {
        panic!("expected a change");
    };
    assert_eq!(operation, Operation::Mute);
    assert_eq!(value, "on");
    assert_eq!(selection.receiver, Some(1));
    assert_eq!(resource_version, None);
    assert!(dry_run);
    assert!(parse_args(&args(&["set", "mute"])).is_err());
    assert!(matches!(parse_args(&args(&["--version"])), Ok(Command::Version)));
}

#[test]
fn set_checks_the_version_and_skips_values_already_set() {
    let control = MainZoneControl::Mute(MuteState::On);
    assert_eq!(
        set_decision(Some(3), 4, &control, None),
        SetDecision::Stale { expected: 3, current: 4 }
    );
    assert_eq!(
        set_decision(Some(4), 4, &control, Some(&MainZoneValue::Mute(MuteState::On))),
        SetDecision::AlreadySet
    );
    assert_eq!(
        set_decision(None, 4, &control, Some(&MainZoneValue::Mute(MuteState::Off))),
        SetDecision::Proceed { version: 4 }
    );
    assert_eq!(
        stale_version_message(3, 4),
        "stale resource version: expected 3, current 4; run get status"
    );
}

#[test]
fn writes_go_to_the_named_host_receiver_or_saved_one() {
    let mut selection = Selection::default();
    assert_eq!(write_target(&selection), WriteTarget::Saved);
    selection.receiver = Some(2);
    assert_eq!(write_target(&selection), WriteTarget::Discovered(2));
    selection.host = Some("192.0.2.7".into());
    assert_eq!(write_target(&selection), WriteTarget::Host("192.0.2.7".into()));

    let empty = ConfiguredReceivers::default();
    assert_eq!(
        saved_write_identity(&empty).unwrap_err(),
        "set requires a saved receiver or an explicit selector"
    );
    let saved = ConfiguredReceivers {
        current: Some("den".into()),
        receivers: vec![("den".into(), ReceiverIdentity::ad_hoc("192.0.2.8"))],
    };
    let (name, identity) = saved_write_identity(&saved).unwrap();
    assert_eq!(name, "den");
    assert_eq!(identity.host, "192.0.2.8");
}

#[test]
fn command_output_names_the_receiver() {
    assert_eq!(resource_field(Resource::Surround), Some(MainZoneField::SurroundMode));
    assert_eq!(resource_field(Resource::Status), None);
    let mut identity = ReceiverIdentity::ad_hoc("192.0.2.8");
    assert_eq!(target_text(&identity, 5), "Receiver: receiver (192.0.2.8)\nResource version: 5");
    identity.model = Some("AVC-X3800H".into());
    assert_eq!(target_text(&identity, 0), "Receiver: AVC-X3800H (192.0.2.8)\nResource version: 0");
    let receivers = [
        DiscoveredReceiver {
            address: ReceiverEndpoint { host: "192.0.2.8".into(), port: 1900 },
            location: None,
            server: Some("Denon".into()),
            model: None,
            search_target: None,
            unique_service_name: None,
        },
    ];
    assert_eq!(receiver_lines(&receivers), vec!["1. Denon (192.0.2.8)".to_owned()]);
}
