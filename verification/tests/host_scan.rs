use radar_lib::network_scanner::host_scan::{ udp_port_counts_as_open, udp_probe, PROBE_TIMEOUT_MILLIS, };
use radar_lib::network_scanner::host_scan::{
    seed_host,
    candidate_hosts, common_tcp_ports, common_udp_ports, dotted_quad_ok, host_service,
    network_device_service, parse_arp_output, port_services, record_scanned_host, scan_results,
    subnet_hosts, tcp_port_service, tcp_service_label, udp_port_service, udp_service_label,
    ScannedHost,
};
use radar_lib::network_scanner::{add_to_network_map, NetworkHost, NetworkMap};

#[test]
fn arp_line_names_address_and_host() {
    let hosts = parse_arp_output("router.local (192.168.1.1) at aa:bb:cc:dd:ee:ff");
    assert_eq!(hosts, vec![("192.168.1.1".to_string(), Some("router.local".to_string()))]);
}

#[test]
fn arp_table_keeps_only_dotted_quads() {
    let table = "? (192.168.1.7) at 0:1:2:3:4:5 on en0 ifscope [ethernet]\n\
                 nas.lan ( 192.168.1.8 ) at (incomplete) on en0\n\
                 bad (1.2.3) at x\n\
                 worse (a.b.c.d) at x\n\
                 big (1.2.3.256) at x\n\
                 six (fe80::1) at x\n\
                 backwards ) 1.2.3.4 ( at x\n\
                 no brackets at all\n\
                 \t (10.0.0.255) \r\n";
    assert_eq!(
        parse_arp_output(table),
        vec![
            ("192.168.1.7".to_string(), None),
            ("192.168.1.8".to_string(), Some("nas.lan".to_string())),
            ("10.0.0.255".to_string(), None),
        ]
    );
    assert!(parse_arp_output("").is_empty());
}

#[test]
fn dotted_quads_are_four_numbers_up_to_255() {
    for good in ["0.0.0.0", "255.255.255.255", "192.168.001.1"] {
        assert!(dotted_quad_ok(&good.chars().collect::<Vec<char>>()), "{}", good);
    }
    for bad in ["", "1.2.3", "1.2.3.4.5", "1.2.3.", "1..3.4", "1.2.3.+4", "1.2.3.0004", "256.1.1.1", "a.b.c.d"] {
        assert!(!dotted_quad_ok(&bad.chars().collect::<Vec<char>>()), "{}", bad);
    }
}

#[test]
fn subnet_has_hosts_one_to_254() {
    let hosts = subnet_hosts("192.168.7.33");
    assert_eq!(hosts.len(), 254);
    assert_eq!(hosts[0], ("192.168.7.1".to_string(), None));
    assert_eq!(hosts[32], ("192.168.7.33".to_string(), None));
    assert_eq!(hosts[253], ("192.168.7.254".to_string(), None));
    assert_eq!(subnet_hosts("10.1")[0].0, "10.1.1");
}

#[test]
fn candidates_come_from_the_table_or_else_the_subnet() {
    let table = Some("gw (10.0.0.1) at x".to_string());
    let own = Some("10.0.0.9".to_string());
    assert_eq!(candidate_hosts(&table, &own), vec![("10.0.0.1".to_string(), Some("gw".to_string()))]);
    assert_eq!(candidate_hosts(&Some("nothing here".to_string()), &own).len(), 254);
    assert_eq!(candidate_hosts(&None, &own)[1].0, "10.0.0.2");
    assert!(candidate_hosts(&None, &None).is_empty());
    assert!(candidate_hosts(&Some(String::new()), &None).is_empty());
}

#[test]
fn port_catalogs_are_fixed() {
    let tcp = common_tcp_ports();
    assert_eq!(tcp, vec![20, 21, 22, 23, 25, 53, 80, 110, 443, 587, 993, 995, 3306, 3389, 5432]);
    assert_eq!(tcp.len(), 15);
    let udp = common_udp_ports();
    assert_eq!(udp, vec![53, 67, 68, 69, 123, 161, 162, 1900, 5353]);
    assert_eq!(udp.len(), 9);
    for ports in [&tcp, &udp] {
        let mut distinct = ports.clone();
        distinct.sort();
        distinct.dedup();
        assert_eq!(distinct.len(), ports.len());
    }
}

#[test]
fn ports_have_their_usual_labels() {
    let tcp = [
        (20, "ftp"), (21, "ftp"), (22, "ssh"), (23, "telnet"), (25, "smtp"), (53, "dns"),
        (80, "http"), (110, "pop3"), (443, "https"), (587, "smtp"), (993, "imaps"),
        (995, "pop3s"), (3306, "mysql"), (3389, "rdp"), (5432, "postgresql"), (8080, "http"),
        (8443, "https"), (1, "unknown"), (65535, "unknown"),
    ];
    for (port, label) in tcp {
        assert_eq!(tcp_service_label(port), (label, label.to_uppercase().as_str()), "{}", port);
    }
    let udp = [
        (53, "dns"), (67, "dhcp"), (68, "dhcp"), (69, "tftp"), (123, "ntp"), (161, "snmp"),
        (162, "snmp"), (1900, "upnp"), (5353, "mdns"), (80, "unknown"),
    ];
    for (port, label) in udp {
        assert_eq!(udp_service_label(port), (label, label.to_uppercase().as_str()), "{}", port);
    }
}

#[test]
fn open_port_gives_a_sighting() {
    let t = tcp_port_service("10.0.0.5", 8080);
    assert_eq!(t.name, "HTTP (10.0.0.5) on port 8080");
    assert_eq!(t.service_type, "http");
    assert_eq!(t.address, "10.0.0.5");
    assert_eq!(t.port, Some(8080));
    assert_eq!(t.discovery_method, "Network Scan");
    assert_eq!(t.details.as_deref(), Some("TCP service discovered on 10.0.0.5:8080\nType: http"));
    let u = udp_port_service("10.0.0.5", 5353);
    assert_eq!(u.name, "MDNS (10.0.0.5) on port 5353/udp");
    assert_eq!(u.service_type, "mdns");
    assert_eq!(u.details.as_deref(), Some("UDP service discovered on 10.0.0.5:5353\nType: mdns"));
}

#[test]
fn scanned_host_gives_a_sighting_for_each_open_port() {
    let host = ScannedHost {
        ip: "10.0.0.5".to_string(),
        hostname: None,
        open_tcp: vec![22, 443],
        open_udp: vec![53],
    };
    let names: Vec<String> = port_services(&host).into_iter().map(|s| s.name).collect();
    assert_eq!(
        names,
        vec![
            "SSH (10.0.0.5) on port 22",
            "HTTPS (10.0.0.5) on port 443",
            "DNS (10.0.0.5) on port 53/udp",
        ]
    );
}

#[test]
fn host_sighting_is_named_by_host_or_address() {
    let named = host_service("10.0.0.5", &Some("box".to_string()));
    assert_eq!(named.name, "box");
    assert_eq!(named.service_type, "host");
    assert_eq!(named.port, None);
    assert_eq!(named.details.as_deref(), Some("Host discovered on network at 10.0.0.5"));
    assert_eq!(host_service("10.0.0.5", &None).name, "Device at 10.0.0.5");
}

#[test]
fn known_host_is_described_with_its_ports() {
    let mut host = NetworkHost::new(Some("nas".to_string()));
    for p in [8080, 22, 443] {
        host.add_tcp_port(p);
    }
    host.add_udp_port(5353);
    let s = network_device_service("10.0.0.8", &host);
    assert_eq!(s.name, "nas");
    assert_eq!(s.service_type, "network_device");
    assert_eq!(
        s.details.as_deref(),
        Some("Host: 10.0.0.8\nHostname: nas\n\nOpen TCP ports:\n  22\n  443\n  8080\n\nOpen UDP ports:\n  5353\n")
    );
    let bare = network_device_service("10.0.0.9", &NetworkHost::new(None));
    assert_eq!(bare.name, "Network Device at 10.0.0.9");
    assert_eq!(bare.details.as_deref(), Some("Host: 10.0.0.9\n"));
}

#[test]
fn scan_returns_silent_hosts_and_hosts_with_ports() {
    let hosts = vec![
        ScannedHost { ip: "10.0.0.1".to_string(), hostname: Some("gw".to_string()), open_tcp: vec![80], open_udp: vec![] },
        ScannedHost { ip: "10.0.0.2".to_string(), hostname: None, open_tcp: vec![], open_udp: vec![] },
        ScannedHost { ip: "10.0.0.3".to_string(), hostname: None, open_tcp: vec![], open_udp: vec![] },
    ];
    let mut map = NetworkMap::new();
    add_to_network_map(&mut map, "10.0.0.9", Some("tv".to_string()), Some(vec![8009]), None);
    add_to_network_map(&mut map, "10.0.0.3", None, None, Some(vec![5353]));
    add_to_network_map(&mut map, "10.0.0.4", None, None, None);
    for h in &hosts {
        add_to_network_map(&mut map, &h.ip, h.hostname.clone(), None, None);
        record_scanned_host(&mut map, h);
    }
    let found: Vec<(String, String, String)> = scan_results(&hosts, &map)
        .into_iter()
        .map(|s| (s.address, s.service_type, s.name))
        .collect();
    let expected = [
        ("10.0.0.2", "host", "Device at 10.0.0.2"),
        ("10.0.0.3", "host", "Device at 10.0.0.3"),
        ("10.0.0.9", "network_device", "tv"),
        ("10.0.0.1", "network_device", "gw"),
    ];
    let expected: Vec<(String, String, String)> = expected
        .iter()
        .map(|(a, t, n)| (a.to_string(), t.to_string(), n.to_string()))
        .collect();
    assert_eq!(found, expected);
}

#[test]
fn udp_port_counts_as_open_once_the_probe_is_sent() {
    assert_eq!(udp_probe(), [0, 1, 2, 3]);
    assert!(udp_port_counts_as_open(true, false));
    assert!(udp_port_counts_as_open(true, true));
    assert!(!udp_port_counts_as_open(false, false));
    assert_eq!(PROBE_TIMEOUT_MILLIS, 500);
}

#[test]
fn candidates_are_taken_into_the_map_before_the_scan() {
    let mut map = NetworkMap::new();
    assert!(!seed_host(&mut map, &("10.0.0.1".to_string(), Some("gw".to_string()))));
    assert!(seed_host(&mut map, &("10.0.0.2".to_string(), None)));
    assert!(seed_host(&mut map, &("10.0.0.1".to_string(), None)));
    assert_eq!(map.len(), 2);
    assert_eq!(map.get("10.0.0.1").unwrap().hostname.as_deref(), Some("gw"));
    assert!(map.get("10.0.0.2").unwrap().hostname.is_none());
    assert!(map.get("10.0.0.2").unwrap().tcp_ports.is_empty());
}
