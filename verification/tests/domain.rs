use denon_avr_remote::domain::capabilities::ModelCapabilities as DomainCapabilities;
use denon_avr_remote::domain::{MainZoneControl as Control, MuteState as Mute, PowerState as Power, VolumeLevel as Level};
use denon_avr_remote::capabilities::{Model as PortModel, ModelCapabilities};
use denon_avr_remote::display::{eq_summary, quick_select_line, registered_label};
use denon_avr_remote::domain::capabilities::Model;
use denon_avr_remote::domain::eq_status::{EqEvidence, EqFeature, EqState, EqStatus};
use denon_avr_remote::domain::quick_select::{
    QuickSelectName, QuickSelectPreset, QuickSelectSlot, QuickSelectSnapshot, QuickSelectSummary,
    Registered,
};

#[test]
fn x3800h_starts_with_documented_ports_and_unverified_features() {
    let capabilities = ModelCapabilities::for_model(PortModel::AvrX3800h);
    assert_eq!(capabilities.tcp_avr_port, 23);
    assert_eq!(capabilities.heos_cli_port, 1255);
    assert_eq!(capabilities.supports_heos_secure_cli, None);
    assert!(capabilities.needs_live_validation);
}

#[test]
fn normalizes_avr_and_avc_x3800h_names() {
    assert_eq!(Model::from_reported("Denon AVR-X3800H"), Model::AvrX3800h);
    assert_eq!(Model::from_reported("AVC X3800H"), Model::AvrX3800h);
    assert_eq!(Model::from_reported("unknown"), Model::Unknown);
}

#[test]
fn features_remain_independent() {
    let s = EqStatus { dynamic_eq: EqState::Off, ..EqStatus::default() };
    assert_eq!(s.state(EqFeature::DynamicEq), &EqState::Off);
    assert_eq!(s.state(EqFeature::DiracLive), &EqState::Unknown);
}

#[test]
fn direct_modes_are_not_reported_as_eq_off() {
    let mut status = EqStatus { dynamic_eq: EqState::On, ..EqStatus::default() };
    status.apply_mode_restrictions("PURE DIRECT");
    assert!(matches!(status.dynamic_eq, EqState::NotApplicable(_)));
}

#[test]
fn failed_refresh_preserves_the_previous_feature_observation() {
    let previous = EqStatus { dynamic_eq: EqState::On, ..EqStatus::default() };
    let mut refresh =
        EqStatus { dynamic_eq: EqState::Unavailable("timeout".into()), ..EqStatus::default() };
    refresh.record_evidence(EqEvidence {
        feature: EqFeature::DynamicEq,
        response: None,
        error: Some("timeout".into()),
        elapsed_millis: 10,
    });
    refresh.preserve_failed_observations(&previous);
    assert_eq!(refresh.dynamic_eq, EqState::On);
}

#[test]
fn recording_evidence_keeps_the_newest_record_per_feature() {
    let mut status = EqStatus::default();
    let record = |feature, elapsed_millis| EqEvidence {
        feature,
        response: Some("PSDYNEQ ON".into()),
        error: None,
        elapsed_millis,
    };
    status.record_evidence(record(EqFeature::DynamicEq, 1));
    status.record_evidence(record(EqFeature::DiracLive, 2));
    status.record_evidence(record(EqFeature::DynamicEq, 3));
    assert_eq!(status.evidence.len(), 2);
    assert_eq!(status.evidence[0].feature, EqFeature::DiracLive);
    assert_eq!(status.evidence[1].elapsed_millis, 3);
    assert_eq!(status.dynamic_eq, EqState::Unknown);
}

#[test]
fn slots_are_exactly_main_zone_slots() {
    assert!(QuickSelectSlot::new(0).is_err());
    assert_eq!(QuickSelectSlot::all().len(), 4);
    assert!(QuickSelectSlot::new(5).is_err());
    assert_eq!(QuickSelectSlot::new(4).unwrap().number(), 4);
}

#[test]
fn omitted_is_not_unknown() {
    assert_ne!(Registered::<String>::Omitted, Registered::Unknown);
}

#[test]
fn names_follow_the_receivers_sixteen_character_limit() {
    assert_eq!(QuickSelectName::new("  Movie night  ").unwrap().as_str(), "Movie night");
    assert!(QuickSelectName::new("12345678901234567").is_err());
    assert!(QuickSelectName::new("bad\nname").is_err());
}

#[test]
fn quick_select_display_names_every_registered_field_state() {
    let slot = QuickSelectSlot::new(1).unwrap();
    let mut snapshot = QuickSelectSnapshot::default();
    snapshot.set(QuickSelectPreset {
        slot,
        name: None,
        available: true,
        summary: QuickSelectSummary::default(),
    });
    let display = quick_select_line(&snapshot, slot);
    assert!(display.contains("channel levels=unknown"));
    assert!(display.contains("Dirac Live=unknown"));
}

#[test]
fn quick_select_lines_name_the_slot() {
    let snapshot = QuickSelectSnapshot::default();
    let slot = QuickSelectSlot::new(3).unwrap();
    assert_eq!(
        quick_select_line(&snapshot, slot),
        "Quick Select 3: Unknown (slot details are not queryable)"
    );
    let mut snapshot = QuickSelectSnapshot::default();
    let mut summary = QuickSelectSummary::default();
    summary.channel_levels = Registered::Omitted;
    summary.audyssey = Registered::Included("on".into());
    snapshot.set(QuickSelectPreset {
        slot,
        name: Some(QuickSelectName::new("Movie").unwrap()),
        available: true,
        summary,
    });
    assert_eq!(
        quick_select_line(&snapshot, slot),
        "Quick Select 3 — Movie · registered fields: source=unknown, volume=unknown, mode=unknown, channel levels=not included, Audyssey=included, Restorer=unknown, Dialog Enhancer=unknown, HDMI output=unknown, speaker preset=unknown, Dirac Live=unknown"
    );
    assert_eq!(registered_label(&Registered::<String>::Omitted), "not included");
}

#[test]
fn every_change_moves_the_quick_select_version_forward() {
    let mut snapshot = QuickSelectSnapshot::default();
    assert_eq!(snapshot.resource_version(), 0);
    snapshot.set(QuickSelectPreset {
        slot: QuickSelectSlot::new(2).unwrap(),
        name: None,
        available: false,
        summary: QuickSelectSummary::default(),
    });
    assert_eq!(snapshot.resource_version(), 1);
    snapshot.invalidate();
    assert_eq!(snapshot.resource_version(), 2);
    assert!(snapshot.preset(QuickSelectSlot::new(2).unwrap()).is_none());
}

#[test]
fn eq_summary_lists_every_feature() {
    let status = EqStatus { dynamic_eq: EqState::On, ..EqStatus::default() };
    assert_eq!(
        eq_summary(&status),
        "Audyssey MultEQ XT32: EQ status not reported · Dynamic EQ: On · Dynamic EQ reference offset: EQ status not reported · Dynamic Volume: EQ status not reported · Audyssey LFC: EQ status not reported · Dirac Live: EQ status not reported"
    );
}

#[test]
fn capability_lookups_hand_back_token_errors() {
    let caps = DomainCapabilities::for_model(Model::AvrX3800h);
    assert_eq!(caps.input("").unwrap_err(), "input must not be empty");
    assert_eq!(caps.input("CD\u{7}").unwrap_err(), "input must not contain control characters");
    assert_eq!(caps.surround_mode("").unwrap_err(), "surround mode must not be empty");
    assert_eq!(caps.input("NOPE").unwrap_err(), "input is not supported by this receiver");
    assert!(caps.input("CD").is_ok());
}

#[test]
fn only_validated_models_take_controls() {
    let unknown = DomainCapabilities::for_model(Model::Unknown);
    assert!(!unknown.supports_control(&Control::Power(Power::On)));
    assert!(!unknown.supports_control(&Control::Mute(Mute::Off)));
    let caps = DomainCapabilities::for_model(Model::AvrX3800h);
    assert!(caps.supports_control(&Control::Power(Power::Standby)));
    assert!(caps.supports_control(&Control::Volume(Level::new(500).unwrap())));
    assert!(!caps.supports_control(&Control::Volume(Level::new(1000).unwrap())));
}
