use denon_avr_remote::application::{ApplicationService, StatusQueryAction, StatusQueryEvent, StatusQueryPhase, StatusTarget, parse_receiver_choice, field_command_text, read_field_reply, ZoneField};
use denon_avr_remote::config::{parse, render_config, Config, ConfigError, ReceiverIdentity};
use denon_avr_remote::domain::receiver::{ConfiguredReceivers, DiscoveredReceiver, ReceiverEndpoint, ReceiverIdentity as Identity};
use denon_avr_remote::repository::{backup_path, create_temporary_path, decode_config_file, encode_config_file, ReceiverRecord};
use denon_avr_remote::status::{AvrTransport, ExchangeLog};
use denon_avr_remote::session::TransportError;

#[test]
fn parses_documented_shape() {
    let config =
        parse("receiver:\n  host: 192.0.2.10\n  model: AVR-X3800H\n  friendly_name: Living room\n")
            .unwrap();
    assert_eq!(config.receiver.host, "192.0.2.10");
    assert_eq!(config.receiver.model.as_deref(), Some("AVR-X3800H"));
    assert_eq!(config.receiver.friendly_name.as_deref(), Some("Living room"));
}

#[test]
fn saved_configuration_loads_back() {
    let config = Config {
        receiver: ReceiverIdentity {
            host: "192.0.2.10".into(),
            model: Some("AVR-X3800H".into()),
            friendly_name: None,
        },
    };
    let text = render_config(&config);
    assert_eq!(text, "receiver:\n  host: 192.0.2.10\n  model: AVR-X3800H\n");
    assert_eq!(parse(&text).unwrap(), config);
}

#[test]
fn configuration_errors_name_the_line() {
    assert!(matches!(
        parse("host: 192.0.2.10\n"),
        Err(ConfigError::Invalid(message)) if message.contains("line 1")
    ));
    assert!(parse("receiver:\n  model: X\n").is_err());
    assert!(parse("receiver:\n  colour: red\n  host: h\n").is_err());
}

#[test]
fn legacy_yaml_rejects_multiple_receivers_on_save() {
    let config = ConfiguredReceivers {
        current: Some("one".into()),
        receivers: vec![
            ("one".into(), Identity::ad_hoc("192.0.2.1")),
            ("two".into(), Identity::ad_hoc("192.0.2.2")),
        ],
    };
    let error = encode_config_file(&config).unwrap_err();
    assert!(error.text().contains("exactly one receiver"));
}

#[test]
fn legacy_record_names_the_receiver_by_its_friendly_name() {
    let decoded = decode_config_file(ReceiverRecord {
        host: "192.0.2.1".into(),
        model: Some("  ".into()),
        friendly_name: Some("den".into()),
    });
    assert_eq!(decoded.current.as_deref(), Some("den"));
    assert_eq!(decoded.receivers[0].1.model, None);
    let record = encode_config_file(&decoded).unwrap();
    assert_eq!(record.host, "192.0.2.1");
    assert_eq!(record.friendly_name.as_deref(), Some("den"));
}

#[test]
fn temporary_and_backup_paths_are_unique_siblings() {
    assert_eq!(
        create_temporary_path("config/denon.yaml", 42, 7),
        "config/denon.yaml.tmp.42.7"
    );
    assert_eq!(backup_path("config/denon.yaml", 42, 7), "config/denon.yaml.bak.42.7");
}

fn receiver(host: &str) -> DiscoveredReceiver {
    DiscoveredReceiver {
        address: ReceiverEndpoint { host: host.into(), port: 23 },
        location: None,
        server: Some("Denon".into()),
        model: Some("AVR-X3800H".into()),
        search_target: None,
        unique_service_name: None,
    }
}

#[test]
fn selects_the_only_receiver_and_rejects_ambiguous_selection() {
    let service = ApplicationService::new("target/test-config.yaml");
    let one = [receiver("192.0.2.10")];
    assert_eq!(service.select_receiver(&one, None).unwrap().address.host, "192.0.2.10");
    let two = [receiver("192.0.2.10"), receiver("192.0.2.11")];
    assert!(service.select_receiver(&two, None).is_err());
    assert_eq!(service.select_receiver(&two, Some(1)).unwrap().address.host, "192.0.2.11");
}

#[test]
fn selection_errors_say_why() {
    let service = ApplicationService::default();
    assert_eq!(service.config_path(), "config/denon-avr-remote.yaml");
    assert_eq!(service.select_receiver(&[], None).unwrap_err(), "no receivers discovered");
    assert_eq!(
        service.select_receiver(&[receiver("192.0.2.10")], Some(1)).unwrap_err(),
        "receiver selection is out of range"
    );
    let service = service.with_timeouts(500, 250);
    assert_eq!(service.connect_timeout_millis(), 500);
    assert_eq!(service.read_timeout_millis(), 250);
}

#[test]
fn status_queries_prefer_a_manual_host_then_the_saved_receiver() {
    let saved = Config { receiver: ReceiverIdentity { host: "h".into(), model: None, friendly_name: None } };
    assert_eq!(
        ApplicationService::status_target(None, Some("m".into()), Some(saved.clone())),
        StatusTarget::Manual(ReceiverIdentity { host: "m".into(), model: None, friendly_name: None })
    );
    assert_eq!(
        ApplicationService::status_target(None, None, Some(saved.clone())),
        StatusTarget::Saved(saved.receiver.clone())
    );
    assert_eq!(ApplicationService::status_target(Some(0), None, Some(saved)), StatusTarget::Discover);
    assert_eq!(ApplicationService::status_target(None, None, None), StatusTarget::Discover);
}

struct Replies(Vec<&'static str>);

impl AvrTransport for Replies {
    fn exchanges(&self) -> ExchangeLog {
        unreachable!("the exchange log is a specification value")
    }

    fn query(&mut self, _command: &str) -> Result<String, String> {
        Ok(self.0.remove(0).to_owned())
    }
}

#[test]
fn a_queried_receiver_is_remembered() {
    let service = ApplicationService::new("x.yaml");
    let identity = ApplicationService::identity_from_discovery(&receiver("192.0.2.10"));
    let mut transport = Replies(vec!["PWON", "SICD", "MV80", "MUOFF", "MSSTEREO"]);
    let (queried, status, text) = service.query_identity(&mut transport, identity.clone());
    assert_eq!(queried, identity);
    assert_eq!(status.power.value.as_deref(), Some("on"));
    assert_eq!(text, "receiver:\n  host: 192.0.2.10\n  model: AVR-X3800H\n");
    assert!(service.render_status(&status).contains("Power: on"));
    assert!(service.load_saved(None).unwrap().is_none());
    assert_eq!(service.load_saved(Some(text.as_str())).unwrap().unwrap().receiver, identity);
}

#[test]
fn typed_receiver_choices_count_from_one() {
    assert_eq!(parse_receiver_choice(" 2\n"), Ok(1));
    assert_eq!(parse_receiver_choice("0"), Ok(0));
    assert_eq!(parse_receiver_choice("two").unwrap_err(), "receiver selection must be a number");
}

#[test]
fn asynchronous_field_replies_are_read_like_synchronous_ones() {
    assert_eq!(field_command_text(ZoneField::Surround), "MS?");
    assert_eq!(read_field_reply(ZoneField::Power, Ok("PWON".into())), Ok("on".into()));
    assert!(matches!(
        read_field_reply(ZoneField::Mute, Ok("MUX".into())),
        Err(TransportError::Unexpected(_))
    ));
    assert_eq!(
        read_field_reply(ZoneField::Volume, Err(TransportError::Stopped)),
        Err(TransportError::Stopped)
    );
}

#[test]
fn a_status_query_falls_back_from_the_saved_receiver_to_discovery() {
    let service = ApplicationService::new("x.yaml");
    let (phase, action) = service.query_status_step::<u8>(StatusQueryPhase::Start, StatusQueryEvent::Begin { requested: None, manual_host: None });
    assert_eq!(phase, StatusQueryPhase::LoadingSaved { requested: None });
    assert_eq!(action, StatusQueryAction::LoadSaved);
    let saved = Config { receiver: ReceiverIdentity { host: "192.0.2.9".into(), model: None, friendly_name: None } };
    let (phase, action) = service.query_status_step::<u8>(phase, StatusQueryEvent::SavedLoaded(Ok(Some(saved.clone()))));
    assert_eq!(phase, StatusQueryPhase::TryingSaved { requested: None });
    assert_eq!(action, StatusQueryAction::Query(saved.receiver.clone()));
    let (phase, action) = service.query_status_step::<u8>(phase, StatusQueryEvent::Queried(Err("timed out".into())));
    assert_eq!(phase, StatusQueryPhase::Discovering { requested: None });
    assert_eq!(action, StatusQueryAction::Discover);
    let (phase, action) = service.query_status_step::<u8>(phase, StatusQueryEvent::Discovered(Ok(vec![receiver("192.0.2.10")])));
    assert_eq!(phase, StatusQueryPhase::Querying);
    let StatusQueryAction::Query(identity) = action else { panic!("expected a query") };
    assert_eq!(identity.host, "192.0.2.10");
    assert_eq!(identity.model.as_deref(), Some("AVR-X3800H"));
    let (phase, action) = service.query_status_step::<u8>(phase, StatusQueryEvent::Queried(Ok(5)));
    assert_eq!(phase, StatusQueryPhase::Done);
    assert_eq!(action, StatusQueryAction::Finish(Ok(5)));
}

#[test]
fn a_status_query_for_a_given_host_is_final() {
    let service = ApplicationService::new("x.yaml");
    let (phase, action) = service.query_status_step::<u8>(StatusQueryPhase::Start, StatusQueryEvent::Begin { requested: Some(1), manual_host: Some("10.0.0.2".into()) });
    assert_eq!(phase, StatusQueryPhase::Querying);
    assert_eq!(action, StatusQueryAction::Query(ReceiverIdentity { host: "10.0.0.2".into(), model: None, friendly_name: None }));
    let (_, action) = service.query_status_step::<u8>(phase, StatusQueryEvent::Queried(Err("refused".into())));
    assert_eq!(action, StatusQueryAction::Finish(Err("refused".into())));
    let discovering = StatusQueryPhase::Discovering { requested: Some(3) };
    let (_, action) = service.query_status_step::<u8>(discovering, StatusQueryEvent::Discovered(Ok(vec![receiver("192.0.2.10")])));
    assert_eq!(action, StatusQueryAction::Finish(Err("receiver selection is out of range".into())));
    let (_, action) = service.query_status_step::<u8>(StatusQueryPhase::LoadingSaved { requested: Some(0) }, StatusQueryEvent::SavedLoaded(Err(ConfigError::Invalid("bad".into()))));
    assert_eq!(action, StatusQueryAction::Discover);
}
