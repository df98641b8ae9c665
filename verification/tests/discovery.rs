use denon_avr_remote::discovery::{discovery_request, is_denon_family, merge_description, parse_description, parse_response, private_ipv4_addresses, receiver_key, record_receiver, reserved_fallback_budget, scan_candidates, ssdp_schedule, AIOS_SSDP_TARGET, DENON_DOCUMENTED_SSDP_PORT, SSDP_PORT, SSDP_TARGET, description_body, description_request};
use denon_avr_remote::domain::receiver::{DiscoveredReceiver, ReceiverEndpoint};

#[test]
fn response_headers_are_case_insensitive() {
    let response = b"HTTP/1.1 200 OK\r\nLOCATION: http://192.0.2.4:8080/\r\nServer: Denon\r\n\r\n";
    let receiver = parse_response(response, "192.0.2.4", 1800).unwrap();
    assert_eq!(receiver.location.as_deref(), Some("http://192.0.2.4:8080/"));
    assert_eq!(receiver.server.as_deref(), Some("Denon"));
}

#[test]
fn duplicate_key_uses_address_and_location() {
    let receiver = DiscoveredReceiver {
        address: ReceiverEndpoint { host: "192.0.2.4".into(), port: 1800 },
        location: Some("http://192.0.2.4/".to_owned()),
        server: None,
        model: None,
        search_target: Some(SSDP_TARGET.to_owned()),
        unique_service_name: None,
    };
    assert_eq!(receiver_key(&receiver), ("192.0.2.4".to_owned(), receiver.location.clone()));
}

#[test]
fn probes_standard_and_denon_documented_ssdp_ports() {
    assert!(discovery_request(SSDP_PORT, SSDP_TARGET).contains("HOST: 239.255.255.250:1900"));
    assert!(discovery_request(DENON_DOCUMENTED_SSDP_PORT, SSDP_TARGET)
        .contains("HOST: 239.255.255.250:1800"));
    assert!(discovery_request(SSDP_PORT, SSDP_TARGET).contains(SSDP_TARGET));
    assert!(discovery_request(SSDP_PORT, AIOS_SSDP_TARGET).contains(AIOS_SSDP_TARGET));
    assert!(discovery_request(SSDP_PORT, "ssdp:all").contains("ST: ssdp:all"));
    assert!(discovery_request(SSDP_PORT, SSDP_TARGET).contains("MX: 3"));
    assert!(discovery_request(SSDP_PORT, SSDP_TARGET).contains("UPnP/1.1"));
}

#[test]
fn broad_search_results_are_filtered_to_denon_family() {
    let receiver = parse_response(
        b"HTTP/1.1 200 OK\r\nST: upnp:rootdevice\r\nUSN: uuid:123\r\nLOCATION: http://192.0.2.4/upnp/desc/aios_device.xml\r\n\r\n",
        "192.0.2.4",
        1900,
    )
    .unwrap();
    assert!(is_denon_family(&receiver));

    let unrelated = parse_response(
        b"HTTP/1.1 200 OK\r\nST: upnp:rootdevice\r\nSERVER: Generic Printer\r\n\r\n",
        "192.0.2.5",
        1900,
    )
    .unwrap();
    assert!(!is_denon_family(&unrelated));
}

#[test]
fn parses_denon_aios_description() {
    let receiver = parse_description(
        "<root><device><deviceType>urn:schemas-denon-com:device:AiosDevice:1</deviceType><friendlyName>Living Room</friendlyName><manufacturer>Denon</manufacturer><modelName>Denon AVC-X3800H</modelName><UDN>uuid:test</UDN></device></root>",
        "192.0.2.8",
        60006,
    )
    .unwrap();
    assert_eq!(receiver.model.as_deref(), Some("Denon AVC-X3800H"));
    assert_eq!(receiver.unique_service_name.as_deref(), Some("uuid:test"));
    assert!(is_denon_family(&receiver));
}

#[test]
fn rejects_non_denon_description() {
    assert!(parse_description(
        "<root><device><manufacturer>Other</manufacturer><modelName>Printer</modelName></device></root>",
        "192.0.2.9",
        60006,
    )
    .is_none());
}

#[test]
fn request_is_exactly_an_m_search() {
    assert_eq!(
        discovery_request(1900, "ssdp:all"),
        "M-SEARCH * HTTP/1.1\r\nHOST: 239.255.255.250:1900\r\nMAN: \"ssdp:discover\"\r\nMX: 3\r\nST: ssdp:all\r\nUSER-AGENT: Rust/std UPnP/1.1 denon-avr-remote/0.1\r\n\r\n"
    );
}

#[test]
fn answers_without_headers_are_refused() {
    assert!(parse_response(b"HTTP/1.1 200 OK\r\n\r\n", "192.0.2.4", 1900).is_err());
    assert!(parse_response(&[0xff, 0xfe], "192.0.2.4", 1900).is_err());
}

#[test]
fn fallback_budget_is_bounded_by_the_timeout() {
    assert_eq!(reserved_fallback_budget(3_000_000_000), 1_000_000_000);
    assert_eq!(reserved_fallback_budget(2), 2);
}

fn found(host: &str, location: Option<&str>, model: &str) -> DiscoveredReceiver {
    DiscoveredReceiver {
        address: ReceiverEndpoint { host: host.into(), port: 1900 },
        location: location.map(str::to_owned),
        server: Some("Denon".into()),
        model: Some(model.into()),
        search_target: None,
        unique_service_name: None,
    }
}

#[test]
fn the_first_answer_per_host_and_location_is_kept_in_key_order() {
    let mut table = Vec::new();
    record_receiver(&mut table, found("192.0.2.9", None, "first"));
    record_receiver(&mut table, found("192.0.2.1", Some("http://x/"), "second"));
    record_receiver(&mut table, found("192.0.2.9", None, "repeat"));
    record_receiver(&mut table, found("192.0.2.1", None, "third"));
    let models: Vec<_> = table.iter().map(|r| r.model.clone().unwrap()).collect();
    assert_eq!(models, ["third", "second", "first"]);
}

#[test]
fn descriptions_fill_in_what_the_answer_lacked() {
    let answer = found("192.0.2.4", None, "ssdp model");
    let mut description = found("192.0.2.4", Some("http://192.0.2.4:60006/desc.xml"), "AVC-X3800H");
    description.server = Some("ignored".into());
    description.unique_service_name = Some("uuid:1".into());
    let merged = merge_description(answer, description);
    assert_eq!(merged.model.as_deref(), Some("AVC-X3800H"));
    assert_eq!(merged.location.as_deref(), Some("http://192.0.2.4:60006/desc.xml"));
    assert_eq!(merged.server.as_deref(), Some("Denon"));
    assert_eq!(merged.unique_service_name.as_deref(), Some("uuid:1"));
    assert_eq!(merged.search_target, None);
}

fn ip(a: u8, b: u8, c: u8, d: u8) -> u32 {
    u32::from_be_bytes([a, b, c, d])
}

#[test]
fn only_private_interfaces_are_searched_in_order() {
    let addresses = [ip(192, 168, 1, 20), ip(127, 0, 0, 1), ip(10, 0, 0, 5), ip(8, 8, 8, 8), ip(192, 168, 1, 20), ip(172, 16, 4, 1), ip(172, 32, 0, 1)];
    assert_eq!(
        private_ipv4_addresses(&addresses),
        vec![ip(10, 0, 0, 5), ip(172, 16, 4, 1), ip(192, 168, 1, 20)]
    );
}

#[test]
fn description_scan_covers_each_subnet_once() {
    let candidates = scan_candidates(&[ip(192, 168, 1, 20), ip(192, 168, 1, 30)]);
    assert_eq!(candidates.len(), 254);
    assert_eq!(candidates[0], ip(192, 168, 1, 1));
    assert!(!candidates[..253].contains(&ip(192, 168, 1, 20)));
    assert_eq!(candidates[253], ip(192, 168, 1, 20));
    assert!(!candidates.contains(&ip(192, 168, 1, 0)));
    assert!(!candidates.contains(&ip(192, 168, 1, 255)));
    assert_eq!(scan_candidates(&[ip(10, 0, 0, 1)]).len(), 253);
}

#[test]
fn searches_leave_a_third_of_the_time_for_the_scan() {
    assert_eq!(ssdp_schedule(3_000), (2_000, 1_000));
    assert_eq!(ssdp_schedule(2), (0, 0));
}

#[test]
fn description_probes_ask_for_the_device_description() {
    assert_eq!(
        description_request("192.0.2.8"),
        "GET /upnp/desc/aios_device/aios_device.xml HTTP/1.0\r\nHost: 192.0.2.8:60006\r\nConnection: close\r\n\r\n"
    );
    assert_eq!(description_body(b"HTTP/1.1 200 OK\r\nA: b\r\n\r\n<root/>").as_deref(), Some("<root/>"));
    assert_eq!(description_body(b"HTTP/1.1 200 OK\nA: b\n\n<root/>").as_deref(), Some("<root/>"));
    assert_eq!(description_body(b"HTTP/1.1 200 OK\r\n"), None);
}
