use radar_lib::network_scanner::{add_to_network_map, NetworkHost, NetworkMap};
use std::collections::HashSet;

fn set(ports: &[u16]) -> HashSet<u16> {
    ports.iter().copied().collect()
}

#[test]
fn first_report_makes_the_entry() {
    let mut map = NetworkMap::new();
    assert_eq!(map.len(), 0);
    assert!(map.get("10.0.0.1").is_none());
    add_to_network_map(&mut map, "10.0.0.1", Some("gw".to_string()), Some(vec![80, 443]), None);
    let host = map.get("10.0.0.1").unwrap();
    assert_eq!(host.hostname.as_deref(), Some("gw"));
    assert_eq!(host.tcp_ports, set(&[80, 443]));
    assert_eq!(host.udp_ports, set(&[]));
    assert_eq!(map.len(), 1);
}

#[test]
fn host_name_once_set_stays() {
    let mut map = NetworkMap::new();
    add_to_network_map(&mut map, "10.0.0.2", None, None, None);
    assert_eq!(map.get("10.0.0.2").unwrap().hostname, None);
    add_to_network_map(&mut map, "10.0.0.2", Some("first".to_string()), None, None);
    add_to_network_map(&mut map, "10.0.0.2", Some("second".to_string()), None, None);
    add_to_network_map(&mut map, "10.0.0.2", None, None, None);
    assert_eq!(map.get("10.0.0.2").unwrap().hostname.as_deref(), Some("first"));
    assert_eq!(map.len(), 1);
}

#[test]
fn ports_add_up_in_any_order() {
    let reports: Vec<(&str, Option<Vec<u16>>, Option<Vec<u16>>)> = vec![
        ("10.0.0.3", Some(vec![22]), None),
        ("10.0.0.4", Some(vec![80]), Some(vec![53])),
        ("10.0.0.3", Some(vec![80, 22]), Some(vec![5353])),
        ("10.0.0.3", None, Some(vec![123, 5353])),
        ("10.0.0.4", Some(vec![]), None),
    ];
    let orders: Vec<Vec<usize>> = vec![vec![0, 1, 2, 3, 4], vec![4, 3, 2, 1, 0], vec![2, 0, 4, 1, 3]];
    for order in orders {
        let mut map = NetworkMap::new();
        for i in order {
            let (ip, tcp, udp) = reports[i].clone();
            add_to_network_map(&mut map, ip, None, tcp, udp);
        }
        assert_eq!(map.len(), 2);
        assert_eq!(map.get("10.0.0.3").unwrap().tcp_ports, set(&[22, 80]));
        assert_eq!(map.get("10.0.0.3").unwrap().udp_ports, set(&[123, 5353]));
        assert_eq!(map.get("10.0.0.4").unwrap().tcp_ports, set(&[80]));
        assert_eq!(map.get("10.0.0.4").unwrap().udp_ports, set(&[53]));
    }
}

#[test]
fn entries_stand_in_the_order_of_first_report() {
    let mut map = NetworkMap::new();
    add_to_network_map(&mut map, "b", None, None, None);
    add_to_network_map(&mut map, "a", None, Some(vec![1]), None);
    add_to_network_map(&mut map, "b", None, Some(vec![2]), None);
    let addresses: Vec<&str> = map.entries().iter().map(|e| e.address.as_str()).collect();
    assert_eq!(addresses, vec!["b", "a"]);
    assert_eq!(map.entries()[0].host.tcp_ports, set(&[2]));
}

#[test]
fn host_collects_ports_and_copies() {
    let mut host = NetworkHost::new(Some("h".to_string()));
    host.add_tcp_port(80);
    host.add_tcp_port(80);
    host.add_udp_port(53);
    let copy = host.clone();
    host.add_tcp_port(22);
    assert_eq!(copy.hostname.as_deref(), Some("h"));
    assert_eq!(copy.tcp_ports, set(&[80]));
    assert_eq!(copy.udp_ports, set(&[53]));
    assert_eq!(host.tcp_ports, set(&[22, 80]));
}

#[test]
fn empty_name_is_no_name() {
    let mut map = NetworkMap::new();
    add_to_network_map(&mut map, "10.0.0.5", Some("".to_string()), None, None);
    assert_eq!(map.get("10.0.0.5").unwrap().hostname, None);
    add_to_network_map(&mut map, "10.0.0.5", Some("router".to_string()), None, None);
    assert_eq!(map.get("10.0.0.5").unwrap().hostname.as_deref(), Some("router"));
    add_to_network_map(&mut map, "10.0.0.5", Some("".to_string()), None, None);
    add_to_network_map(&mut map, "10.0.0.5", Some("other".to_string()), None, None);
    assert_eq!(map.get("10.0.0.5").unwrap().hostname.as_deref(), Some("router"));
    assert_eq!(map.len(), 1);
}
