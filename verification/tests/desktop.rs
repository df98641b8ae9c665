use denon_avr_remote::desktop::{
    accept_bridge_event, discovery_announcement, field_error_announcement, lifecycle_forgets_observations,
    lifecycle_generation, manual_identity, recall_announcement, BridgeEvent, GuiCommand, GuiEvent,
    GuiMessage, GuiState, ReceiverSelection, Route, WindowClass,
};
use denon_avr_remote::domain::quick_select::QuickSelectSnapshot;
use denon_avr_remote::domain::{Freshness, MainZoneControl, PowerState};
use denon_avr_remote::session::Lifecycle;

#[test]
fn stale_bridge_results_are_ignored() {
    let mut gui = GuiState::new();
    gui.request_id = 4;
    let command = gui.update(GuiMessage::Bridge(BridgeEvent {
        request_id: 3,
        generation: 0,
        event: GuiEvent::Lifecycle(Lifecycle::Connected { generation: 1 }),
    }));
    assert_eq!(command, None);
    assert_eq!(gui.lifecycle, Lifecycle::NoReceiver);
    assert_eq!(gui.request_id, 4);
    assert_eq!(gui.generation, 0);
    assert_eq!(gui.quick_select, QuickSelectSnapshot::default());
}

#[test]
fn bridge_events_are_taken_only_when_current() {
    let event = BridgeEvent { request_id: 3, generation: 0, event: Lifecycle::Connected { generation: 1 } };
    assert_eq!(accept_bridge_event(4, 0, event.request_id, event.generation), None);
    assert_eq!(accept_bridge_event(4, 2, 4, 1), None);
    assert_eq!(accept_bridge_event(4, 2, 5, 3), Some((5, 3)));
    assert_eq!(accept_bridge_event(4, 2, 4, 0), Some((4, 2)));
}

#[test]
fn a_disconnect_forgets_quick_select_and_eq() {
    let mut gui = GuiState::new();
    gui.request_id = 4;
    gui.generation = 2;
    gui.update(GuiMessage::Bridge(BridgeEvent {
        request_id: 4,
        generation: 0,
        event: GuiEvent::Lifecycle(Lifecycle::Disconnected),
    }));
    assert_eq!(gui.lifecycle, Lifecycle::Disconnected);
    assert_eq!(gui.request_id, 4);
    assert_eq!(gui.generation, 2);
    assert_eq!(gui.quick_select.freshness, Freshness::Invalidated);
    assert_eq!(gui.quick_select.resource_version(), 1);
    assert_eq!(gui.eq_status.freshness, Freshness::Invalidated);
}

#[test]
fn a_stale_observation_changes_nothing() {
    let mut gui = GuiState::new();
    gui.request_id = 4;
    let mut snapshot = QuickSelectSnapshot::default();
    snapshot.invalidate();
    gui.update(GuiMessage::Bridge(BridgeEvent { request_id: 3, generation: 0, event: GuiEvent::QuickSelect(snapshot) }));
    gui.update(GuiMessage::Bridge(BridgeEvent { request_id: 3, generation: 0, event: GuiEvent::Snapshot(9) }));
    gui.update(GuiMessage::Bridge(BridgeEvent { request_id: 2, generation: 0, event: GuiEvent::Control("Confirmed".into()) }));
    assert_eq!(gui.quick_select, QuickSelectSnapshot::default());
    assert_eq!(gui.snapshot_version, 0);
    assert_eq!(gui.announcement, "Loading configuration…");
}

#[test]
fn controller_outcomes_are_announced() {
    let mut gui = GuiState::new();
    gui.update(GuiMessage::Bridge(BridgeEvent { request_id: 0, generation: 0, event: GuiEvent::Control("Confirmed".into()) }));
    assert_eq!(gui.announcement, "Control outcome: Confirmed");
    gui.update(GuiMessage::Bridge(BridgeEvent { request_id: 0, generation: 0, event: GuiEvent::QuickSelectRecall("Pending".into()) }));
    assert_eq!(gui.announcement, "Quick Select: Pending");
    gui.update(GuiMessage::Bridge(BridgeEvent { request_id: 0, generation: 0, event: GuiEvent::Diagnostic("Idle".into()) }));
    assert_eq!(gui.announcement, "Diagnostic: Idle");
    gui.update(GuiMessage::Bridge(BridgeEvent { request_id: 0, generation: 0, event: GuiEvent::Snapshot(7) }));
    assert_eq!(gui.snapshot_version, 7);
    assert_eq!(gui.announcement, "Diagnostic: Idle");
}

#[test]
fn lifecycles_name_their_generation() {
    assert_eq!(lifecycle_generation(Lifecycle::Reconnecting { generation: 7 }), 7);
    assert_eq!(lifecycle_generation(Lifecycle::Selected), 0);
    assert!(lifecycle_forgets_observations(Lifecycle::Disconnected));
    assert!(!lifecycle_forgets_observations(Lifecycle::Connected { generation: 1 }));
}

#[test]
fn manual_setup_trims_address_and_name() {
    let identity = manual_identity(" 192.0.2.4 ", "  Den ").unwrap();
    assert_eq!(identity.host, "192.0.2.4");
    assert_eq!(identity.friendly_name.as_deref(), Some("Den"));
    assert_eq!(manual_identity("192.0.2.4", "   ").unwrap().friendly_name, None);
    assert_eq!(manual_identity("  ", "x").unwrap_err(), "Enter a receiver address first.");
}

#[test]
fn announcements_say_what_happened() {
    assert_eq!(discovery_announcement(2), "Found 2 receiver(s).");
    assert_eq!(recall_announcement(3), "Recalling Main Zone Quick Select 3…");
    assert_eq!(field_error_announcement("Volume", "timed out"), "Volume unavailable: timed out");
    assert_ne!(Route::Dashboard, Route::Settings);
    assert_ne!(WindowClass::Wide, WindowClass::Compact);
}

#[test]
fn the_client_state_follows_messages_and_ignores_stale_results() {
    let mut gui = GuiState::new();
    assert_eq!(gui.update(GuiMessage::ManualSetup), None);
    assert_eq!(gui.announcement, "Enter a receiver address first.");
    gui.update(GuiMessage::AddressChanged("  10.0.0.5 ".into()));
    let command = gui.update(GuiMessage::ManualSetup).unwrap();
    let GuiCommand::Select(1, ReceiverSelection::ExplicitHost(identity)) = command else {
        panic!("expected a selection");
    };
    assert_eq!(identity.host, "10.0.0.5");
    assert_eq!(gui.update(GuiMessage::PowerOn), Some(GuiCommand::Control(2, MainZoneControl::Power(PowerState::On), 0)));
    assert_eq!(gui.announcement, "Command pending; waiting for receiver confirmation…");
    gui.update(GuiMessage::Bridge(BridgeEvent { request_id: 2, generation: 3, event: GuiEvent::Lifecycle(Lifecycle::Connected { generation: 3 }) }));
    assert_eq!(gui.lifecycle, Lifecycle::Connected { generation: 3 });
    gui.update(GuiMessage::Bridge(BridgeEvent { request_id: 1, generation: 0, event: GuiEvent::Lifecycle(Lifecycle::Disconnected) }));
    assert_eq!(gui.lifecycle, Lifecycle::Connected { generation: 3 });
    gui.update(GuiMessage::Bridge(BridgeEvent { request_id: 2, generation: 0, event: GuiEvent::FieldError { field_name: "Volume".into(), message: "timed out".into() } }));
    assert_eq!(gui.announcement, "Volume unavailable: timed out");
    assert_eq!(gui.update(GuiMessage::DiscoveryFinished(Ok(2))), None);
    assert_eq!(gui.announcement, "Found 2 receiver(s).");
    assert_eq!(gui.update(GuiMessage::Discover), Some(GuiCommand::Discover));
}
