use radar_lib::router_discovery::{
    connection_type, connection_type_from, describe_interfaces, interface_type,
    local_isp_config, parse_dns_servers, parse_uptime, resolver_listings, router_info_from,
    take_listing, wants_listing, with_fallback_servers, FoundInterface, IspConfig,
    NetworkInterface, Platform, ResolverListing, RouterInfo,
};

fn found(name: &str, ip: &str, is_loopback: bool) -> FoundInterface {
    FoundInterface { name: name.to_string(), ip_address: ip.to_string(), is_loopback }
}

#[test]
fn interface_name_suggests_the_link() {
    assert_eq!(interface_type("en0").as_deref(), Some("Ethernet"));
    assert_eq!(interface_type("enp3s0").as_deref(), Some("Ethernet"));
    assert_eq!(interface_type("wlan0").as_deref(), Some("WiFi"));
    assert_eq!(interface_type("eth0"), None);
    assert_eq!(interface_type("EN0"), None);
    assert_eq!(interface_type(""), None);
}

#[test]
fn loopback_is_left_out_and_default_is_marked() {
    let all = vec![
        found("lo0", "127.0.0.1", true),
        found("en0", "192.168.1.5", false),
        found("wlan0", "192.168.1.6", false),
        found("utun1", "10.8.0.2", false),
    ];
    let out = describe_interfaces(&all, &Some("wlan0".to_string()));
    let seen: Vec<(&str, &str, bool, Option<&str>)> = out
        .iter()
        .map(|i| (i.name.as_str(), i.ip_address.as_str(), i.is_default, i.interface_type.as_deref()))
        .collect();
    assert_eq!(
        seen,
        vec![
            ("en0", "192.168.1.5", false, Some("Ethernet")),
            ("wlan0", "192.168.1.6", true, Some("WiFi")),
            ("utun1", "10.8.0.2", false, None),
        ]
    );
    assert!(out.iter().all(|i| i.mac_address.is_none()));
    assert!(describe_interfaces(&all, &None).iter().all(|i| !i.is_default));
}

#[test]
fn resolver_configuration_names_servers() {
    let text = "# comment\nnameserver 192.168.1.1\nnameserver\t8.8.8.8 # second\nsearch lan\nnameserver\n nameserver 1.1.1.1\nnameserverx 9.9.9.9\n";
    assert_eq!(
        parse_dns_servers(ResolverListing::ResolvConf, text),
        vec!["192.168.1.1", "8.8.8.8", "9.9.9.9"]
    );
}

#[test]
fn system_listing_names_servers() {
    let text = "resolver #1\n  nameserver[0] : 192.168.1.1\n  nameserver[1] : fe80::1\n  flags : Request A records\nnameserver[2]\n";
    assert_eq!(
        parse_dns_servers(ResolverListing::Scutil, text),
        vec!["192.168.1.1", "fe80::1", "nameserver[2]"]
    );
}

#[test]
fn interface_listing_names_servers() {
    let text = "   DNS Servers . . . . . . . . . . . : 192.168.1.1\r\n   DNS Servers . . . : \r\n   Gateway : 1.2.3.4\r\n";
    assert_eq!(parse_dns_servers(ResolverListing::Ipconfig, text), vec!["192.168.1.1"]);
}

#[test]
fn public_resolvers_stand_in_where_none_was_found() {
    assert_eq!(with_fallback_servers(Vec::new()), vec!["8.8.8.8", "1.1.1.1"]);
    assert_eq!(with_fallback_servers(vec!["10.0.0.1".to_string()]), vec!["10.0.0.1"]);
}

#[test]
fn link_is_that_of_the_first_telling_interface() {
    let names = vec!["utun0".to_string(), "wlp2s0".to_string(), "en0".to_string()];
    assert_eq!(connection_type_from(&names).as_deref(), Some("WiFi"));
    assert_eq!(connection_type_from(&Vec::new()), None);
    let all = vec![found("EN9", "127.0.0.1", true), found("ETH0", "10.0.0.1", false), found("EN0", "10.0.0.2", false)];
    assert_eq!(connection_type(&all).as_deref(), Some("Ethernet"));
    assert_eq!(connection_type(&vec![found("en0", "127.0.0.1", true)]), None);
}

#[test]
fn uptime_report_gives_seconds() {
    assert_eq!(parse_uptime(" 10:02  up 12 days,  3:04, 2 users, load averages: 1.5 1.4 1.3"), Some(12 * 86400));
    assert_eq!(parse_uptime("09:00 up 3:04, 2 users"), None);
    assert_eq!(parse_uptime("up 1 day, 2:00"), None);
    assert_eq!(parse_uptime("nothing"), None);
    assert_eq!(parse_uptime("up 0 days"), Some(0));
    assert_eq!(parse_uptime("up 7"), Some(7 * 86400));
    assert_eq!(parse_uptime("up 2 up 5 days"), Some(2 * 86400));
    assert_eq!(parse_uptime("up 213503982334601 days"), Some(213503982334601 * 86400));
    assert_eq!(parse_uptime("up 213503982334602 days"), None);
}

#[test]
fn local_configuration_is_put_together() {
    let c = local_isp_config(
        &Some("my-laptop.local\n".to_string()),
        &vec![found("lo", "127.0.0.1", true), found("wlan0", "10.0.0.2", false)],
        &Some("up 2 days".to_string()),
    );
    assert_eq!(c.hostname.as_deref(), Some("my-laptop.local"));
    assert_eq!(c.connection_type.as_deref(), Some("WiFi"));
    assert_eq!(c.uptime, Some(172800));
    assert!(c.isp_name.is_none() && c.ipv4.is_none() && c.ipv6.is_none() && c.dns_servers.is_empty());
    let nothing = local_isp_config(&None, &Vec::new(), &None);
    assert!(nothing.hostname.is_none() && nothing.connection_type.is_none() && nothing.uptime.is_none());
}

#[test]
fn router_info_is_put_together() {
    let mut isp = IspConfig::default();
    isp.ipv4 = Some("203.0.113.9".to_string());
    let r = router_info_from(
        "192.168.1.1".to_string(),
        "aa:bb:cc:dd:ee:ff".to_string(),
        None,
        Some(vec!["192.168.1.1".to_string()]),
        Some(isp),
    );
    assert_eq!(r.gateway_ip.as_deref(), Some("192.168.1.1"));
    assert_eq!(r.mac_address.as_deref(), Some("aa:bb:cc:dd:ee:ff"));
    assert_eq!(r.public_ip.as_deref(), Some("203.0.113.9"));
    assert_eq!(r.dns_servers, vec!["192.168.1.1"]);
    assert!(r.connected_interfaces.is_empty());
    assert!(r.isp_config.is_some());
    let bare = router_info_from("g".to_string(), "m".to_string(), None, None, None);
    assert!(bare.public_ip.is_none() && bare.isp_config.is_none() && bare.dns_servers.is_empty());
    let d = RouterInfo::default();
    assert!(d.gateway_ip.is_none() && d.connected_interfaces.is_empty());
    let i = NetworkInterface::default();
    assert!(i.name.is_empty() && !i.is_default);
}

#[test]
fn listings_are_read_until_one_names_a_server() {
    assert_eq!(
        resolver_listings(Platform::MacOs),
        vec![ResolverListing::ResolvConf, ResolverListing::Scutil]
    );
    assert_eq!(resolver_listings(Platform::Unix), vec![ResolverListing::ResolvConf]);
    assert_eq!(resolver_listings(Platform::Windows), vec![ResolverListing::Ipconfig]);
    assert!(resolver_listings(Platform::Other).is_empty());

    let none: Vec<String> = Vec::new();
    assert!(wants_listing(&none));
    let unread = take_listing(none, ResolverListing::ResolvConf, &None);
    assert!(unread.is_empty());
    let silent = take_listing(unread, ResolverListing::ResolvConf, &Some("search lan\n".to_string()));
    assert!(wants_listing(&silent));
    let found = take_listing(
        silent,
        ResolverListing::Scutil,
        &Some("  nameserver[0] : 192.168.1.1\n".to_string()),
    );
    assert_eq!(found, vec!["192.168.1.1"]);
    assert!(!wants_listing(&found));
    let kept = take_listing(
        found,
        ResolverListing::ResolvConf,
        &Some("nameserver 9.9.9.9\n".to_string()),
    );
    assert_eq!(kept, vec!["192.168.1.1"]);
}
