use radar_lib::network_scanner::{
    consolidate_services, create_consolidated_service, create_friendly_description,
    update_consolidated_service,
};
use radar_lib::NetworkService;
use std::collections::HashMap;

fn sighting(address: &str, port: Option<u16>, service_type: &str) -> NetworkService {
    NetworkService {
        name: format!("{} service", service_type),
        service_type: service_type.to_string(),
        address: address.to_string(),
        port,
        discovery_method: "Network Scan".to_string(),
        details: None,
    }
}

#[test]
fn two_ports_of_one_address_give_one_record() {
    let out = consolidate_services(vec![
        sighting("10.0.0.5", Some(80), "http"),
        sighting("10.0.0.5", Some(443), "https"),
    ]);
    assert_eq!(out.len(), 1);
    assert_eq!(out[0].address, "10.0.0.5");
    assert_eq!(out[0].port, Some(80));
    assert_eq!(out[0].open_ports.get(&80).map(|s| s.as_str()), Some("http"));
    assert_eq!(out[0].open_ports.get(&443).map(|s| s.as_str()), Some("https"));
    assert_eq!(out[0].open_ports.len(), 2);
    assert_eq!(out[0].service_types, vec!["http".to_string(), "https".to_string()]);
    assert_eq!(out[0].discovery_methods, vec!["Network Scan".to_string()]);
    assert_eq!(
        out[0].friendly_description,
        "http service [http] - 10.0.0.5:80 - Services: http:80, https:443"
    );
}

#[test]
fn one_record_for_each_address_in_order() {
    let out = consolidate_services(vec![
        sighting("192.168.1.9", Some(22), "ssh"),
        sighting("10.0.0.5", Some(80), "http"),
        sighting("192.168.1.10", None, "host"),
        sighting("10.0.0.5", Some(80), "http"),
        sighting("192.168.1.9", Some(80), "http"),
    ]);
    let addresses: Vec<&str> = out.iter().map(|c| c.address.as_str()).collect();
    assert_eq!(addresses, vec!["10.0.0.5", "192.168.1.10", "192.168.1.9"]);
}

#[test]
fn no_sightings_give_no_records() {
    assert!(consolidate_services(Vec::new()).is_empty());
}

#[test]
fn first_label_of_a_port_stays() {
    let mut c = create_consolidated_service(&sighting("10.0.0.5", Some(80), "http"));
    update_consolidated_service(&mut c, &sighting("10.0.0.5", Some(80), "web-admin"));
    assert_eq!(c.open_ports.get(&80).map(|s| s.as_str()), Some("http"));
    assert_eq!(c.service_types, vec!["http".to_string(), "web-admin".to_string()]);
}

#[test]
fn merging_twice_changes_nothing_more() {
    let mut later = sighting("10.0.0.5", Some(443), "https");
    later.discovery_method = "UPnP".to_string();
    later.details = Some("Host: box.local\nproxy: 8080\nLocation: http://10.0.0.5:49152/d.xml".to_string());
    let mut c = create_consolidated_service(&sighting("10.0.0.5", Some(80), "http"));
    update_consolidated_service(&mut c, &later);
    let methods = c.discovery_methods.clone();
    let types = c.service_types.clone();
    let ports = c.open_ports.clone();
    update_consolidated_service(&mut c, &later);
    assert_eq!(c.discovery_methods, methods);
    assert_eq!(c.service_types, types);
    assert_eq!(c.open_ports, ports);
    assert_eq!(methods, vec!["Network Scan".to_string(), "UPnP".to_string()]);
    assert_eq!(ports.get(&8080).map(|s| s.as_str()), Some("proxy"));
    assert_eq!(c.hostname.as_deref(), Some("box.local"));
    assert_eq!(c.location_url.as_deref(), Some("http://10.0.0.5:49152/d.xml"));
}

#[test]
fn description_without_heading_names_the_address() {
    let text = create_friendly_description(
        "a.name.with.dots",
        "10.1.2.3",
        None,
        &None,
        &Some("host".to_string()),
        &HashMap::new(),
        &[],
    );
    assert_eq!(text, "Device at 10.1.2.3 - 10.1.2.3");
}

#[test]
fn description_lists_ports_in_ascending_order_and_details() {
    let mut ports = HashMap::new();
    ports.insert(8080u16, "proxy".to_string());
    ports.insert(22u16, "ssh".to_string());
    ports.insert(443u16, "https".to_string());
    let text = create_friendly_description(
        "nas",
        "10.1.2.3",
        Some(22),
        &Some("nas.local".to_string()),
        &Some("ssh".to_string()),
        &ports,
        &["Model: DS220".to_string(), "Manufacturer: Syn".to_string()],
    );
    assert_eq!(
        text,
        "nas (nas.local) [ssh] - 10.1.2.3:22 - Services: ssh:22, https:443, proxy:8080\nDetails: Model: DS220, Manufacturer: Syn"
    );
}

#[test]
fn founding_sighting_is_harvested() {
    let mut s = sighting("10.0.0.9", Some(8009), "googlecast");
    s.name = "Kitchen".to_string();
    s.discovery_method = "mDNS".to_string();
    s.details = Some(
        "Host: first.local.\nFull Name: Kitchen._googlecast._tcp.local.\nService Type: googlecast\n\
         Protocol: TCP\nPort: 8009\nHostname: second.local\nUUID: abc-1 \nServer: Linux/3 UPnP/1.0\n\
         Location: http://10.0.0.9:49152/d.xml\nsee http://10.0.0.9:8080\ntls: 443\n later :  443  \n\
         IP: 1\nType: 2\nUSN: 3\nno colon\nbig: 70000\n22: ssh\nftp://x:21a\n"
            .to_string(),
    );
    let c = create_consolidated_service(&s);
    assert_eq!(c.name, "Kitchen");
    assert_eq!(c.address, "10.0.0.9");
    assert_eq!(c.port, Some(8009));
    assert_eq!(c.hostname.as_deref(), Some("second.local"));
    assert_eq!(c.uuid.as_deref(), Some("abc-1"));
    assert_eq!(c.server_info.as_deref(), Some("Linux/3 UPnP/1.0"));
    assert_eq!(c.location_url.as_deref(), Some("http://10.0.0.9:49152/d.xml"));
    assert_eq!(c.device_type.as_deref(), Some("googlecast"));
    assert_eq!(c.discovery_methods, vec!["mDNS"]);
    assert_eq!(c.service_types, vec!["googlecast"]);
    let mut ports: Vec<(u16, String)> = c.open_ports.iter().map(|(p, l)| (*p, l.clone())).collect();
    ports.sort();
    assert_eq!(
        ports,
        vec![
            (443, "later".to_string()),
            (8009, "Port".to_string()),
            (8080, "Web Interface".to_string()),
        ]
    );
    assert_eq!(
        c.friendly_description,
        "Kitchen (second.local) [googlecast] - 10.0.0.9:8009 - Services: later:443, Port:8009, Web Interface:8080"
    );
}

#[test]
fn device_type_is_guessed_from_the_service_type() {
    let guess = |t: &str| create_consolidated_service(&sighting("a", None, t)).device_type;
    assert_eq!(guess("_http._tcp.local.").as_deref(), Some("http"));
    assert_eq!(guess("_ipp.").as_deref(), Some("ipp"));
    assert_eq!(guess("a_b.._c...").as_deref(), Some("b"));
    assert_eq!(guess("x._").as_deref(), Some(""));
    assert_eq!(guess("http").as_deref(), Some("http"));
    assert_eq!(guess("urn:schemas-upnp-org:device:Basic:1").as_deref(), Some("urn:schemas-upnp-org:device:Basic:1"));
    assert_eq!(guess("no_dot").as_deref(), Some("no_dot"));
}

#[test]
fn later_sighting_fills_only_what_is_missing() {
    let mut first = sighting("10.0.0.9", Some(80), "http");
    first.details = Some("Host: known\nfirst: 8080".to_string());
    let mut c = create_consolidated_service(&first);
    let mut later = sighting("10.0.0.9", Some(8080), "proxy");
    later.discovery_method = "UPnP".to_string();
    later.details = Some(
        "Host: other\nUUID\nUUID: u-1\nUUID: u-2\nModel: M1 \n  Manufacturer: not at the start\nManufacturer: Acme\n\
         Device Type: d\nService Type: s\nServer:\nhttp://10.0.0.9:9000\nagain: 9000\nssh: 22\n23: telnet"
            .to_string(),
    );
    update_consolidated_service(&mut c, &later);
    assert_eq!(c.hostname.as_deref(), Some("known"));
    assert_eq!(c.uuid.as_deref(), Some("u-1"));
    assert_eq!(c.server_info.as_deref(), Some(""));
    assert_eq!(c.location_url, None);
    assert_eq!(c.port, Some(80));
    assert_eq!(c.discovery_methods, vec!["Network Scan", "UPnP"]);
    assert_eq!(c.service_types, vec!["http", "proxy"]);
    let mut ports: Vec<(u16, String)> = c.open_ports.iter().map(|(p, l)| (*p, l.clone())).collect();
    ports.sort();
    assert_eq!(
        ports,
        vec![
            (22, "ssh".to_string()),
            (80, "http".to_string()),
            (8080, "first".to_string()),
            (9000, "Web Interface".to_string()),
        ]
    );
    assert_eq!(
        c.friendly_description,
        "http service (known) [http] - 10.0.0.9:80 - Services: ssh:22, http:80, first:8080, Web Interface:9000\n\
         Details: Model: M1, Manufacturer: Acme, Device Type: d, Service Type: s"
    );
}

#[test]
fn consolidation_merges_in_arrival_order() {
    let mut a = sighting("10.0.0.5", Some(80), "http");
    a.details = Some("Host: web".to_string());
    let mut b = sighting("10.0.0.5", Some(80), "web-admin");
    b.details = Some("Host: other\nModel: X".to_string());
    let out = consolidate_services(vec![sighting("10.0.0.6", None, "host"), a, b]);
    assert_eq!(out.len(), 2);
    assert_eq!(out[0].hostname.as_deref(), Some("web"));
    assert_eq!(out[0].service_types, vec!["http", "web-admin"]);
    assert_eq!(
        out[0].friendly_description,
        "http service (web) [http] - 10.0.0.5:80 - Services: http:80\nDetails: Model: X"
    );
    assert_eq!(out[1].friendly_description, "host service - 10.0.0.6");
}

#[test]
fn long_or_dotted_names_are_left_out_of_the_description() {
    let long = "a name of thirty characters...";
    assert_eq!(long.len(), 30);
    let text = create_friendly_description(long, "10.1.2.3", None, &Some("h".to_string()), &Some("unknown".to_string()), &HashMap::new(), &[]);
    assert_eq!(text, "h - 10.1.2.3");
    let short = create_friendly_description("twenty-nine characters long..", "a", Some(1), &None, &None, &HashMap::new(), &[]);
    assert_eq!(short, "Device at a - a:1");
    let fits = create_friendly_description("twenty-nine characters long", "a", Some(1), &None, &None, &HashMap::new(), &[]);
    assert_eq!(fits, "twenty-nine characters long - a:1");
}

fn next(state: &mut u64) -> u64 {
    *state = state.wrapping_mul(6364136223846793005).wrapping_add(1442695040888963407);
    *state >> 33
}

fn pick<'a>(state: &mut u64, words: &[&'a str]) -> &'a str {
    words[(next(state) % words.len() as u64) as usize]
}

fn random_details(state: &mut u64) -> String {
    let starts = [
        "Host:", "Hostname:", "UUID:", "Location:", "Server:", "Model:", "Manufacturer:",
        "Device Type:", "Service Type:", "IP:", "Type:", "USN:", "Full Name:", "80:", " ssh :",
        "8080", "http://h:", "x://", "", "web:", "+22:", "Port:",
    ];
    let ends = [
        "", " a", "b:c", " 81", ":82", " http://h:83 ", "://", " x : y ", "\r", "65535", "22",
        " 70000", " +443 ",
    ];
    let count = next(state) % 7;
    let mut text = String::new();
    for i in 0..count {
        if i > 0 {
            text.push('\n');
        }
        text.push_str(pick(state, &starts));
        text.push_str(pick(state, &ends));
    }
    text
}

struct Expected {
    hostname: Option<String>,
    uuid: Option<String>,
    location_url: Option<String>,
    server_info: Option<String>,
    open_ports: HashMap<u16, String>,
    details: Vec<String>,
}

fn value(line: &str) -> String {
    line.split_once(':').map_or("", |(_, v)| v).trim().to_string()
}

fn reported_port(line: &str) -> Option<(u16, String)> {
    if line.contains("://") {
        let port = line.split(':').last()?.trim().parse::<u16>().ok()?;
        Some((port, "Web Interface".to_string()))
    } else if line.contains(':')
        && !["IP:", "Type:", "USN:", "Full Name:"].iter().any(|p| line.starts_with(p))
    {
        let (label, number) = line.split_once(':')?;
        Some((number.trim().parse::<u16>().ok()?, label.trim().to_string()))
    } else {
        None
    }
}

fn expect(first: bool, start: Expected, details: &str) -> Expected {
    let mut e = start;
    for line in details.lines() {
        let field = if line.starts_with("Host:") || line.starts_with("Hostname:") {
            Some(&mut e.hostname)
        } else if line.starts_with("UUID:") {
            Some(&mut e.uuid)
        } else if line.starts_with("Location:") {
            Some(&mut e.location_url)
        } else if line.starts_with("Server:") {
            Some(&mut e.server_info)
        } else {
            None
        };
        if let Some(field) = field {
            if first || field.is_none() {
                *field = Some(value(line));
            }
        } else if !first
            && ["Model:", "Manufacturer:", "Device Type:", "Service Type:"]
                .iter()
                .any(|p| line.starts_with(p))
        {
            e.details.push(line.trim().to_string());
        } else if let Some((port, label)) = reported_port(line) {
            if first {
                e.open_ports.insert(port, label);
            } else {
                e.open_ports.entry(port).or_insert(label);
            }
        }
    }
    e
}

#[test]
fn details_are_harvested_line_by_line() {
    let mut state = 11u64;
    for _ in 0..3000 {
        let mut first = sighting("10.0.0.1", Some(80), "http");
        first.details = Some(random_details(&mut state));
        let mut later = sighting("10.0.0.1", Some(443), "https");
        later.details = Some(random_details(&mut state));

        let mut c = create_consolidated_service(&first);
        let mut e = expect(
            true,
            Expected {
                hostname: None,
                uuid: None,
                location_url: None,
                server_info: None,
                open_ports: HashMap::new(),
                details: Vec::new(),
            },
            first.details.as_deref().unwrap(),
        );
        e.open_ports.entry(80).or_insert("http".to_string());
        let context = format!("{:?}", first.details);
        assert_eq!(c.hostname, e.hostname, "{}", context);
        assert_eq!(c.uuid, e.uuid, "{}", context);
        assert_eq!(c.location_url, e.location_url, "{}", context);
        assert_eq!(c.server_info, e.server_info, "{}", context);
        assert_eq!(c.open_ports, e.open_ports, "{}", context);

        update_consolidated_service(&mut c, &later);
        e.open_ports.entry(443).or_insert("https".to_string());
        let e = expect(false, e, later.details.as_deref().unwrap());
        let context = format!("{:?} then {:?}", first.details, later.details);
        assert_eq!(c.hostname, e.hostname, "{}", context);
        assert_eq!(c.uuid, e.uuid, "{}", context);
        assert_eq!(c.location_url, e.location_url, "{}", context);
        assert_eq!(c.server_info, e.server_info, "{}", context);
        assert_eq!(c.open_ports, e.open_ports, "{}", context);
        let tail = if e.details.is_empty() {
            String::new()
        } else {
            format!("\nDetails: {}", e.details.join(", "))
        };
        assert!(c.friendly_description.ends_with(&tail), "{}", context);
        assert_eq!(c.friendly_description.contains("\nDetails: "), !e.details.is_empty(), "{}", context);

        let once_ports = c.open_ports.clone();
        let once_types = c.service_types.clone();
        update_consolidated_service(&mut c, &later);
        assert_eq!(c.open_ports, once_ports, "{}", context);
        assert_eq!(c.service_types, once_types, "{}", context);
    }
}

#[test]
fn location_is_kept_whole() {
    let mut c = create_consolidated_service(&sighting("10.0.0.8", None, "host"));
    let mut later = sighting("10.0.0.8", None, "UPnP Device");
    later.discovery_method = "UPnP".to_string();
    later.details = Some("Location: http://10.0.0.8:49152/desc.xml".to_string());
    update_consolidated_service(&mut c, &later);
    assert_eq!(c.location_url.as_deref(), Some("http://10.0.0.8:49152/desc.xml"));
    assert!(c.open_ports.is_empty());

    let mut founding = sighting("10.0.0.8", None, "UPnP Device");
    founding.details = Some(
        "Server: Linux/3.14 UPnP/1.0: mini \nUUID:a:b\nHostname:  tv.local \nLocation:http://[fe80::1]:80/x".to_string(),
    );
    let f = create_consolidated_service(&founding);
    assert_eq!(f.server_info.as_deref(), Some("Linux/3.14 UPnP/1.0: mini"));
    assert_eq!(f.uuid.as_deref(), Some("a:b"));
    assert_eq!(f.hostname.as_deref(), Some("tv.local"));
    assert_eq!(f.location_url.as_deref(), Some("http://[fe80::1]:80/x"));
}

#[test]
fn label_and_port_pair_adds_the_port() {
    let mut c = create_consolidated_service(&sighting("10.0.0.5", None, "host"));
    let mut later = sighting("10.0.0.5", None, "host");
    later.details = Some("ssh:22".to_string());
    update_consolidated_service(&mut c, &later);
    assert_eq!(c.open_ports.len(), 1);
    assert_eq!(c.open_ports[&22], "ssh");

    later.details = Some("Port: 631\n telnet : 22 \n22: ssh\nipp:631:x\nbig:65536".to_string());
    update_consolidated_service(&mut c, &later);
    let mut ports: Vec<(u16, String)> = c.open_ports.iter().map(|(p, l)| (*p, l.clone())).collect();
    ports.sort();
    assert_eq!(ports, vec![(22, "ssh".to_string()), (631, "Port".to_string())]);
}

#[test]
fn label_of_the_details_counts_before_the_service_type_in_a_founding_sighting() {
    let mut s = sighting("10.0.0.5", Some(631), "ipp");
    s.details = Some("Port: 631".to_string());
    let c = create_consolidated_service(&s);
    assert_eq!(c.open_ports[&631], "Port");
    let mut later = sighting("10.0.0.5", Some(9100), "printer");
    later.details = Some("Port: 9100".to_string());
    let mut c = c;
    update_consolidated_service(&mut c, &later);
    assert_eq!(c.open_ports[&9100], "printer");
}
