use radar_lib::network_scanner::upnp::{ search_variants, SearchVariant, SEARCH_REPEATS, SEARCH_TIMEOUT_SECS, };
use radar_lib::network_scanner::upnp::{
    dedup_services, parse_location, record_upnp_host, upnp_service, Announcement,
};
use radar_lib::network_scanner::NetworkMap;
use radar_lib::{Device, DeviceDescription, DeviceList, NetworkService, Service, ServiceList};

fn announcement(location: &str) -> Announcement {
    Announcement {
        location: location.to_string(),
        server: "Linux/3.14 UPnP/1.0 MiniUPnPd/2.1".to_string(),
        search_target: "urn:schemas-upnp-org:device:InternetGatewayDevice:1".to_string(),
        usn: "uuid:1234-abcd::urn:schemas-upnp-org:device:InternetGatewayDevice:1".to_string(),
    }
}

fn empty_device() -> Device {
    Device {
        device_type: None,
        friendly_name: None,
        manufacturer: None,
        manufacturer_url: None,
        model_description: None,
        model_name: None,
        model_number: None,
        model_url: None,
        serial_number: None,
        udn: None,
        presentation_url: None,
        service_list: None,
        device_list: None,
    }
}

#[test]
fn location_names_address_and_port() {
    assert_eq!(parse_location("http://192.168.1.1:49152/desc.xml"), ("192.168.1.1".to_string(), Some(49152)));
    assert_eq!(parse_location("http://192.168.1.1/desc.xml"), ("192.168.1.1".to_string(), Some(80)));
    assert_eq!(parse_location("http://192.168.1.1:http/desc.xml"), ("192.168.1.1".to_string(), None));
    assert_eq!(parse_location("http://192.168.1.1:99999/x"), ("192.168.1.1".to_string(), None));
    assert_eq!(parse_location("http://192.168.1.1:8080"), ("Unknown".to_string(), None));
    assert_eq!(parse_location("https://192.168.1.1/desc.xml"), ("Unknown".to_string(), None));
    assert_eq!(parse_location(""), ("Unknown".to_string(), None));
    assert_eq!(parse_location("http://http://host:81/x"), ("host".to_string(), Some(81)));
}

#[test]
fn answer_without_description_still_gives_a_sighting() {
    let s = upnp_service(&announcement("http://192.168.1.1:49152/desc.xml"), &None);
    assert_eq!(s.name, "UPnP Device at 192.168.1.1");
    assert_eq!(s.service_type, "UPnP Device");
    assert_eq!(s.address, "192.168.1.1");
    assert_eq!(s.port, Some(49152));
    assert_eq!(s.discovery_method, "UPnP");
    assert_eq!(
        s.details.as_deref(),
        Some(
            "\nSSDP Information:\n\
             Location: http://192.168.1.1:49152/desc.xml\n\
             Server: Linux/3.14 UPnP/1.0 MiniUPnPd/2.1\n  OS: Linux\n  UPnP Version: UPnP/1.0 MiniUPnPd/2.1\n\
             Search Target: urn:schemas-upnp-org:device:InternetGatewayDevice:1\n  Protocol: schemas-upnp-org\n  Service Type: InternetGatewayDevice\n\
             USN: uuid:1234-abcd::urn:schemas-upnp-org:device:InternetGatewayDevice:1\n  UUID: 1234-abcd"
        )
    );
}

#[test]
fn answer_with_unreadable_location_is_unknown() {
    let a = Announcement {
        location: String::new(),
        server: "plain".to_string(),
        search_target: "upnp:rootdevice".to_string(),
        usn: "no-uuid".to_string(),
    };
    let s = upnp_service(&a, &None);
    assert_eq!(s.name, "UPnP Device at Unknown");
    assert_eq!(s.address, "Unknown");
    assert_eq!(s.port, None);
    assert_eq!(
        s.details.as_deref(),
        Some("\nSSDP Information:\nLocation: \nServer: plain\nSearch Target: upnp:rootdevice\nUSN: no-uuid")
    );
}

#[test]
fn description_fills_name_type_and_details() {
    let mut device = empty_device();
    device.device_type = Some("urn:schemas-upnp-org:device:MediaRenderer:1".to_string());
    device.friendly_name = Some("Living Room".to_string());
    device.manufacturer = Some("Acme".to_string());
    device.manufacturer_url = Some("http://acme.example".to_string());
    device.model_name = Some("R1".to_string());
    device.model_number = Some("7".to_string());
    device.serial_number = Some("S-1".to_string());
    device.udn = Some("uuid:dead-beef".to_string());
    device.presentation_url = Some("http://192.168.1.9:8080/".to_string());
    device.service_list = Some(ServiceList {
        services: vec![Service {
            service_type: "urn:schemas-upnp-org:service:AVTransport:1".to_string(),
            service_id: "urn:upnp-org:serviceId:AVTransport".to_string(),
            control_url: Some("/ctl".to_string()),
            event_sub_url: None,
            scpd_url: Some("/scpd.xml".to_string()),
        }],
    });
    let mut inner = empty_device();
    inner.friendly_name = Some("Inner".to_string());
    inner.device_type = Some("plain".to_string());
    device.device_list = Some(DeviceList { devices: vec![inner] });
    let a = Announcement {
        location: "http://192.168.1.9/d.xml".to_string(),
        server: "srv".to_string(),
        search_target: "ssdp:all".to_string(),
        usn: "uuid:dead-beef".to_string(),
    };
    let s = upnp_service(&a, &Some(DeviceDescription { device }));
    assert_eq!(s.name, "Living Room");
    assert_eq!(s.service_type, "urn:schemas-upnp-org:device:MediaRenderer:1");
    assert_eq!(s.address, "192.168.1.9");
    assert_eq!(s.port, Some(80));
    let expected = [
        "Device Type: urn:schemas-upnp-org:device:MediaRenderer:1",
        "Protocol: MediaRenderer",
        "Name: Living Room",
        "Manufacturer: Acme",
        "Manufacturer URL: http://acme.example",
        "Model: R1",
        "Model Number: 7",
        "Serial Number: S-1",
        "UDN: uuid:dead-beef",
        "UUID: dead-beef",
        "Web Interface: http://192.168.1.9:8080/",
        "\nServices:",
        "  Service Type: urn:schemas-upnp-org:service:AVTransport:1",
        "    Protocol: schemas-upnp-org",
        "    Service: AVTransport",
        "  Service ID: urn:upnp-org:serviceId:AVTransport",
        "    Control URL: /ctl",
        "    SCPD URL: /scpd.xml",
        "",
        "\nEmbedded Devices:",
        "  Device:",
        "    Name: Inner",
        "    Type: plain",
        "",
        "\nSSDP Information:",
        "Location: http://192.168.1.9/d.xml",
        "Server: srv",
        "Search Target: ssdp:all",
        "USN: uuid:dead-beef",
    ]
    .join("\n");
    assert_eq!(s.details.as_deref(), Some(expected.as_str()));
}

#[test]
fn name_falls_back_to_the_model() {
    let mut device = empty_device();
    device.model_name = Some("R1".to_string());
    device.manufacturer_url = Some("not shown without the maker".to_string());
    let s = upnp_service(&announcement("http://h/x"), &Some(DeviceDescription { device }));
    assert_eq!(s.name, "R1");
    assert_eq!(s.service_type, "UPnP Device");
    assert!(s.details.as_deref().unwrap().starts_with("Model: R1\n\nSSDP Information:\n"));
}

fn sighting(address: &str, port: Option<u16>, name: &str) -> NetworkService {
    NetworkService {
        name: name.to_string(),
        service_type: "UPnP Device".to_string(),
        address: address.to_string(),
        port,
        discovery_method: "UPnP".to_string(),
        details: None,
    }
}

#[test]
fn repeated_sightings_are_dropped() {
    let all = vec![
        sighting("10.0.0.1", Some(80), "first"),
        sighting("10.0.0.2", Some(80), "other"),
        sighting("10.0.0.1", Some(80), "again"),
        sighting("10.0.0.1", None, "no port"),
        sighting("10.0.0.1", Some(81), "other port"),
        sighting("10.0.0.1", None, "no port again"),
    ];
    let kept = dedup_services(&all);
    let names: Vec<&str> = kept.iter().map(|s| s.name.as_str()).collect();
    assert_eq!(names, vec!["first", "other", "no port", "other port"]);
    assert!(dedup_services(&Vec::new()).is_empty());
}

#[test]
fn sighting_is_taken_into_the_map() {
    let mut map = NetworkMap::new();
    record_upnp_host(&mut map, &sighting("10.0.0.1", Some(49152), "a"));
    record_upnp_host(&mut map, &sighting("10.0.0.2", None, "b"));
    record_upnp_host(&mut map, &sighting("Unknown", Some(1), "c"));
    assert_eq!(map.len(), 2);
    let first = map.get("10.0.0.1").unwrap();
    assert_eq!(first.hostname.as_deref(), Some("10.0.0.1"));
    assert!(first.tcp_ports.contains(&49152) && first.tcp_ports.len() == 1);
    assert!(map.get("10.0.0.2").unwrap().tcp_ports.contains(&80));
    assert!(map.get("Unknown").is_none());
}

#[test]
fn three_searches_are_made() {
    assert_eq!(
        search_variants(),
        vec![
            SearchVariant::RootDevice,
            SearchVariant::All,
            SearchVariant::Uuid("upnp:rootdevice".to_string()),
        ]
    );
    assert_eq!((SEARCH_TIMEOUT_SECS, SEARCH_REPEATS), (2, 1));
}
