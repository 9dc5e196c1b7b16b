use radar_lib::network_scanner::mdns::{after_failed_receive, AfterFailure, BROWSE_WINDOW_SECS};
use radar_lib::network_scanner::mdns::{
    clean_service_type, is_empty_channel, mdns_service, mdns_service_with, record_mdns_host,
    service_types, transport, ResolvedRecord, Transport,
};
use radar_lib::network_scanner::NetworkMap;

fn record(fullname: &str, hostname: &str, addresses: &[&str]) -> ResolvedRecord {
    ResolvedRecord {
        fullname: fullname.to_string(),
        hostname: hostname.to_string(),
        port: 8009,
        addresses: addresses.iter().map(|a| a.to_string()).collect(),
        properties: Vec::new(),
    }
}

#[test]
fn catalog_has_eleven_service_types() {
    let types = service_types();
    assert_eq!(types.len(), 11);
    assert_eq!(types[0], "_http._tcp.local.");
    assert_eq!(types[10], "_companion-link._tcp.local.");
    for t in &types {
        assert_eq!(transport(t), Transport::Tcp);
    }
}

#[test]
fn service_type_is_cleaned() {
    assert_eq!(clean_service_type("_http._tcp.local."), "http");
    assert_eq!(clean_service_type("_device-info._tcp.local."), "device-info");
    assert_eq!(clean_service_type("_sleep_proxy._udp.local."), "sleepproxy");
    assert_eq!(transport("_sleep_proxy._udp.local."), Transport::Udp);
    assert_eq!(transport("whatever"), Transport::Unknown);
}

#[test]
fn empty_channel_is_told_from_other_failures() {
    assert!(is_empty_channel("receiving on an empty channel"));
    assert!(is_empty_channel("no messages in queue"));
    assert!(!is_empty_channel("receiving on a closed channel"));
    assert!(!is_empty_channel(""));
}

#[test]
fn record_gives_a_sighting() {
    let mut r = record("Kitchen._googlecast._tcp.local.", "kitchen.local.", &["192.168.1.20", "fe80::1"]);
    r.properties = vec![("fn".to_string(), "Kitchen".to_string()), ("md".to_string(), "".to_string())];
    let s = mdns_service("_googlecast._tcp.local.", &r);
    assert_eq!(s.name, "Kitchen");
    assert_eq!(s.service_type, "googlecast");
    assert_eq!(s.address, "192.168.1.20");
    assert_eq!(s.port, Some(8009));
    assert_eq!(s.discovery_method, "mDNS");
    assert_eq!(
        s.details.as_deref(),
        Some(
            "Host: kitchen.local.\nFull Name: Kitchen._googlecast._tcp.local.\nService Type: googlecast\n\
             Protocol: TCP\nPort: 8009\n\nTXT Records:\n  fn: Kitchen\n  md: \n\nAll Addresses:\n  192.168.1.20\n  fe80::1"
        )
    );
}

#[test]
fn record_without_a_name_is_named_by_host_or_type() {
    let by_host = mdns_service("_http._tcp.local.", &record("._http._tcp.local.", "printer.local.", &["10.0.0.7"]));
    assert_eq!(by_host.name, "printer");
    let by_type = mdns_service("_http._tcp.local.", &record("._http._tcp.local.", "printer", &[]));
    assert_eq!(by_type.name, "HTTP Device");
    assert_eq!(by_type.address, "Unknown");
    assert_eq!(
        by_type.details.as_deref(),
        Some("Host: printer\nFull Name: ._http._tcp.local.\nService Type: http\nProtocol: TCP\nPort: 8009")
    );
    let same_as_query = mdns_service("query", &record("query", "h", &["10.0.0.7"]));
    assert_eq!(same_as_query.name, "QUERY Device");
    let given = mdns_service_with("_http._tcp.local.", &record("", "h", &[]), "given");
    assert_eq!(given.name, "given Device");
}

#[test]
fn record_is_taken_into_the_map() {
    let mut map = NetworkMap::new();
    record_mdns_host(&mut map, "_http._tcp.local.", &record("a", "a.local.", &["10.0.0.7"]));
    record_mdns_host(&mut map, "_dns._udp.local.", &record("a", "other.local.", &["10.0.0.7"]));
    record_mdns_host(&mut map, "strange", &record("a", "x", &["10.0.0.8"]));
    assert_eq!(map.len(), 1);
    let host = map.get("10.0.0.7").unwrap();
    assert_eq!(host.hostname.as_deref(), Some("a.local."));
    assert!(host.tcp_ports.contains(&8009) && host.tcp_ports.len() == 1);
    assert!(host.udp_ports.contains(&8009) && host.udp_ports.len() == 1);
}

#[test]
fn waiting_goes_on_while_the_channel_is_only_empty() {
    assert_eq!(after_failed_receive("receiving on an empty channel"), AfterFailure::Yield);
    assert_eq!(
        after_failed_receive("receiving on an empty and disconnected channel"),
        AfterFailure::Stop
    );
    assert_eq!(BROWSE_WINDOW_SECS, 2);
}
