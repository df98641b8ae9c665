use denon_avr_remote::domain::receiver::{ConfiguredReceivers, ReceiverIdentity};
use denon_avr_remote::repository::{
    config_from_toml_entries, temporary_path, toml_entries, ReceiverRecord, TomlConfigRepository,
};

fn sample() -> ConfiguredReceivers {
    ConfiguredReceivers {
        current: Some("living-room".into()),
        receivers: vec![(
            "living-room".into(),
            ReceiverIdentity {
                host: "192.0.2.10".into(),
                model: Some("AVR-X3800H".into()),
                friendly_name: Some("Living room".into()),
            },
        )],
    }
}

fn to_toml(current: Option<String>, entries: Vec<(String, ReceiverRecord)>) -> String {
    let mut receivers = toml::Table::new();
    for (name, record) in entries {
        let mut fields = toml::Table::new();
        fields.insert("host".into(), toml::Value::String(record.host));
        if let Some(model) = record.model {
            fields.insert("model".into(), toml::Value::String(model));
        }
        if let Some(friendly_name) = record.friendly_name {
            fields.insert("friendly_name".into(), toml::Value::String(friendly_name));
        }
        receivers.insert(name, toml::Value::Table(fields));
    }
    let mut file = toml::Table::new();
    if let Some(current) = current {
        file.insert("current".into(), toml::Value::String(current));
    }
    file.insert("receivers".into(), toml::Value::Table(receivers));
    toml::to_string_pretty(&file).unwrap()
}

fn text(table: &toml::Table, key: &str) -> Option<String> {
    table.get(key).and_then(|value| value.as_str()).map(str::to_owned)
}

fn from_toml(encoded: &str) -> (Option<String>, Vec<(String, ReceiverRecord)>) {
    let file: toml::Table = toml::from_str(encoded).unwrap();
    let mut entries = Vec::new();
    if let Some(receivers) = file.get("receivers").and_then(|value| value.as_table()) {
        for (name, value) in receivers {
            let fields = value.as_table().unwrap();
            entries.push((
                name.clone(),
                ReceiverRecord {
                    host: text(fields, "host").unwrap(),
                    model: text(fields, "model"),
                    friendly_name: text(fields, "friendly_name"),
                },
            ));
        }
    }
    (text(&file, "current"), entries)
}

#[test]
fn toml_round_trip_preserves_multiple_receiver_shape() {
    let (current, entries) = toml_entries(&sample()).unwrap();
    let encoded = to_toml(current, entries);
    let (current, entries) = from_toml(&encoded);
    assert_eq!(config_from_toml_entries(current, entries).unwrap(), sample());
}

#[test]
fn toml_entries_are_kept_in_name_order_and_validated() {
    let record = |host: &str| ReceiverRecord { host: host.into(), model: None, friendly_name: None };
    let loaded = config_from_toml_entries(
        Some("a".into()),
        vec![("b".into(), record("192.0.2.2")), ("a".into(), record("192.0.2.1")), ("b".into(), record("192.0.2.3"))],
    )
    .unwrap();
    assert_eq!(loaded.receivers.len(), 2);
    assert_eq!(loaded.receivers[0].0, "a");
    assert_eq!(loaded.receivers[1].1.host, "192.0.2.3");
    let error = config_from_toml_entries(Some("c".into()), vec![("a".into(), record("h"))]).unwrap_err();
    assert_eq!(error.text(), "validating configuration: current receiver is not configured");
    let error = config_from_toml_entries(None, vec![("a".into(), record("  "))]).unwrap_err();
    assert_eq!(error.text(), "validating configuration: receiver host must not be empty");
    assert!(toml_entries(&ConfiguredReceivers { current: Some("x".into()), receivers: Vec::new() }).is_err());
}

#[test]
fn repositories_keep_their_paths() {
    assert_eq!(TomlConfigRepository::new("config.toml").path(), "config.toml");
    assert_eq!(temporary_path("dir/config.toml"), "dir/config.toml.tmp");
}
