use radar_lib::public_network::inference::{
    infer_flags, is_vpn_origin, isp_from_lowercase, location_from_lowercase,
    location_from_uppercase, suggests_hosting, suggests_vpn, PrivacyFlags,
};
use radar_lib::public_network::info::{
    adopt_router_ip, apply_asn_record, apply_geo_record, apply_reverse_dns, apply_router_info,
    asn_query, finish_info, hostname_from_output, needs_asn_lookup, needs_geo_lookup,
    origin_query,
};
use radar_lib::public_network::{
    extract_isp_from_hostname, extract_org_from_hostname, infer_location_from_asn,
    infer_location_from_hostname, infer_privacy_status, GeoLocation, PublicNetworkInfo,
};
use radar_lib::router_discovery::{IspConfig, RouterInfo};

const UNSET: PrivacyFlags = PrivacyFlags { is_vpn: None, is_proxy: None, is_hosting: None };

#[test]
fn host_name_suggests_the_provider() {
    assert_eq!(extract_isp_from_hostname("c-73-1-2-3.hsd1.ca.COMCAST.net").as_deref(), Some("Comcast"));
    assert_eq!(extract_isp_from_hostname("pool-1-2-3-4.fios.verizon.net").as_deref(), Some("Verizon"));
    assert_eq!(extract_isp_from_hostname("static.fios.example").as_deref(), Some("Verizon FiOS"));
    assert_eq!(extract_isp_from_hostname("seattle.example.org").as_deref(), Some("AT&T"));
    assert_eq!(extract_isp_from_hostname("host.example.org"), None);
    assert_eq!(isp_from_lowercase("STARLINK"), None);
    assert_eq!(isp_from_lowercase("customer.starlinkisp.net").as_deref(), Some("Starlink"));
}

#[test]
fn host_name_suggests_the_organization() {
    assert_eq!(extract_org_from_hostname("ec2-52-85-76-55.compute-1.amazonaws.com").as_deref(), Some("Amazon Web Services"));
    assert_eq!(extract_org_from_hostname("x.rr.com").as_deref(), Some("Spectrum"));
    assert_eq!(extract_org_from_hostname("comcast.net").as_deref(), Some("Comcast"));
    assert_eq!(extract_org_from_hostname("1.2.googleusercontent.com").as_deref(), Some("Google Cloud"));
    assert_eq!(extract_org_from_hostname("googleusercontent.com").as_deref(), Some("googleusercontent.com"));
    assert_eq!(extract_org_from_hostname("vm.cloudapp.azure.com").as_deref(), Some("Microsoft Azure"));
    assert_eq!(extract_org_from_hostname("azure.com").as_deref(), Some("azure.com"));
    assert_eq!(extract_org_from_hostname("a.b.example.org").as_deref(), Some("example.org"));
    assert_eq!(extract_org_from_hostname("Comcast.Net").as_deref(), Some("Comcast.Net"));
    assert_eq!(extract_org_from_hostname("trailing.").as_deref(), Some("trailing."));
    assert_eq!(extract_org_from_hostname("localhost"), None);
    assert_eq!(extract_org_from_hostname(""), None);
}

#[test]
fn host_name_and_origin_set_the_flags() {
    assert!(suggests_vpn("exit-3.relay.example") && suggests_vpn("monitor.example"));
    assert!(!suggests_vpn("home.example"));
    assert!(suggests_hosting("vps12.example") && !suggests_hosting("home.example"));
    assert!(is_vpn_origin("as16276") && !is_vpn_origin("AS16276") && !is_vpn_origin("as1627"));
    let plain = infer_flags(UNSET, &Some("home.example.net".to_string()), &Some("as7922".to_string()));
    assert_eq!(plain, PrivacyFlags { is_vpn: Some(false), is_proxy: Some(false), is_hosting: Some(false) });
    let vpn = infer_flags(UNSET, &Some("vpn7.example.net".to_string()), &None);
    assert_eq!(vpn, PrivacyFlags { is_vpn: Some(true), is_proxy: Some(true), is_hosting: Some(false) });
    let hosted = infer_flags(UNSET, &Some("ec2.aws.example".to_string()), &Some("as14618".to_string()));
    assert_eq!(hosted, PrivacyFlags { is_vpn: Some(true), is_proxy: Some(true), is_hosting: Some(true) });
    let kept = infer_flags(
        PrivacyFlags { is_vpn: Some(true), is_proxy: None, is_hosting: Some(true) },
        &None,
        &None,
    );
    assert_eq!(kept, PrivacyFlags { is_vpn: Some(true), is_proxy: Some(false), is_hosting: Some(true) });
}

#[test]
fn picture_gets_its_flags() {
    let mut info = PublicNetworkInfo::default();
    info.hostname = Some("Tunnel-4.CLOUD.example".to_string());
    info.asn = Some("AS60068".to_string());
    infer_privacy_status(&mut info);
    assert_eq!((info.is_vpn, info.is_proxy, info.is_hosting), (Some(true), Some(true), Some(true)));
    let mut by_origin = PublicNetworkInfo::default();
    by_origin.asn = Some("AS51852".to_string());
    infer_privacy_status(&mut by_origin);
    assert_eq!((by_origin.is_vpn, by_origin.is_proxy, by_origin.is_hosting), (Some(true), Some(true), Some(false)));
    let mut empty = PublicNetworkInfo::default();
    finish_info(&mut empty);
    assert_eq!(empty.asn.as_deref(), Some(""));
    assert_eq!((empty.is_vpn, empty.is_proxy, empty.is_hosting), (Some(false), Some(false), Some(false)));
}

fn place(l: Option<GeoLocation>) -> Option<(Option<String>, Option<String>, Option<String>)> {
    l.map(|g| (g.city, g.region, g.country))
}

#[test]
fn host_name_suggests_the_location() {
    assert_eq!(
        place(infer_location_from_hostname("ae-1.r20.DFW.example.net")),
        Some((Some("Dallas".to_string()), Some("Texas".to_string()), Some("US".to_string())))
    );
    assert_eq!(
        place(infer_location_from_hostname("core.frankfurt.example")),
        Some((Some("Frankfurt".to_string()), None, Some("Germany".to_string())))
    );
    assert_eq!(
        place(location_from_lowercase("edge.tokyo.example")),
        Some((Some("Tokyo".to_string()), None, Some("Japan".to_string())))
    );
    assert_eq!(
        place(location_from_lowercase("machine.example")),
        Some((Some("Chicago".to_string()), Some("Illinois".to_string()), Some("US".to_string())))
    );
    assert_eq!(place(location_from_lowercase("home.example")), None);
    assert_eq!(place(location_from_lowercase("DFW")), None);
}

#[test]
fn origin_number_suggests_the_country() {
    assert_eq!(place(infer_location_from_asn("as3320")), Some((None, None, Some("Germany".to_string()))));
    assert_eq!(place(infer_location_from_asn("AS701")), Some((None, None, Some("United States".to_string()))));
    assert_eq!(place(infer_location_from_asn("AS70")), None);
    assert_eq!(place(location_from_uppercase("as701")), None);
}

#[test]
fn origin_is_looked_up_under_the_reversed_address() {
    assert_eq!(origin_query("93.184.216.34"), "34.216.184.93.origin.asn.cymru.com");
    assert_eq!(asn_query("93.184.216.34"), "34.216.184.93.origin.asn.cymru.com.");
    assert_eq!(origin_query("host"), "host.origin.asn.cymru.com");
    assert_eq!(origin_query(""), ".origin.asn.cymru.com");
}

#[test]
fn country_record_sets_the_location() {
    let mut info = PublicNetworkInfo::default();
    assert!(needs_geo_lookup(&info));
    apply_geo_record(&mut info, "15169 | 8.8.8.0/24");
    assert!(info.location.is_none());
    apply_geo_record(&mut info, "15169 | 8.8.8.0/24 | US | arin | 2023-12-28");
    assert_eq!(info.location.as_ref().unwrap().country.as_deref(), Some("US"));
    assert!(info.location.as_ref().unwrap().city.is_none());
    assert!(!needs_geo_lookup(&info));
    apply_geo_record(&mut info, "a|b| DE ");
    assert_eq!(info.location.as_ref().unwrap().country.as_deref(), Some("DE"));
}

#[test]
fn origin_record_fills_what_is_not_known() {
    let record = Some("7922 | 73.0.0.0/8 | US | COMCAST-7922, US | 2005-04-19".to_string());
    let mut info = PublicNetworkInfo::default();
    assert!(needs_asn_lookup(&info));
    apply_asn_record(&mut info, &record, true);
    assert_eq!(info.asn.as_deref(), Some("7922"));
    assert_eq!(info.org.as_deref(), Some("COMCAST-7922, US"));
    assert_eq!(info.isp.as_deref(), Some("COMCAST-7922, US"));
    assert_eq!(info.location.as_ref().unwrap().country.as_deref(), Some("US"));
    assert!(!needs_asn_lookup(&info));

    let mut known = PublicNetworkInfo::default();
    known.org = Some("Org".to_string());
    known.isp = Some("Isp".to_string());
    apply_geo_record(&mut known, "x|y|FR");
    apply_asn_record(&mut known, &record, true);
    assert_eq!(known.asn.as_deref(), Some("7922"));
    assert_eq!(known.org.as_deref(), Some("Org"));
    assert_eq!(known.isp.as_deref(), Some("Isp"));
    assert_eq!(known.location.as_ref().unwrap().country.as_deref(), Some("FR"));

    let mut no_location = PublicNetworkInfo::default();
    apply_asn_record(&mut no_location, &record, false);
    assert!(no_location.location.is_none());

    let mut short = PublicNetworkInfo::default();
    apply_asn_record(&mut short, &Some("7922 | 73.0.0.0/8 | US".to_string()), true);
    assert!(short.asn.is_none() && short.location.is_none());

    let mut none = PublicNetworkInfo::default();
    none.asn = Some("old".to_string());
    apply_asn_record(&mut none, &None, true);
    assert_eq!(none.asn.as_deref(), Some(""));
    assert!(needs_asn_lookup(&none));
}

#[test]
fn reverse_lookup_fills_host_provider_and_organization() {
    let mut info = PublicNetworkInfo::default();
    info.isp = Some("kept".to_string());
    apply_reverse_dns(&mut info, "c-1-2-3-4.hsd1.ca.comcast.net");
    assert_eq!(info.hostname.as_deref(), Some("c-1-2-3-4.hsd1.ca.comcast.net"));
    assert_eq!(info.isp.as_deref(), Some("Comcast"));
    assert_eq!(info.org.as_deref(), Some("Comcast"));
    let mut other = PublicNetworkInfo::default();
    other.isp = Some("kept".to_string());
    other.org = Some("kept".to_string());
    apply_reverse_dns(&mut other, "localhost");
    assert_eq!(other.hostname.as_deref(), Some("localhost"));
    assert_eq!(other.isp.as_deref(), Some("kept"));
    assert_eq!(other.org.as_deref(), Some("kept"));
}

#[test]
fn router_stands_in_for_what_is_missing() {
    let mut router = RouterInfo::default();
    router.public_ip = Some("203.0.113.9".to_string());
    let mut isp = IspConfig::default();
    isp.isp_name = Some("Local ISP".to_string());
    router.isp_config = Some(isp);

    let mut info = PublicNetworkInfo::default();
    assert_eq!(adopt_router_ip(&mut info, &router).as_deref(), Some("203.0.113.9"));
    assert_eq!(info.ip.as_deref(), Some("203.0.113.9"));
    assert_eq!(adopt_router_ip(&mut info, &router), None);

    let mut known = PublicNetworkInfo::default();
    known.ip = Some("198.51.100.1".to_string());
    known.isp = Some("Known".to_string());
    assert_eq!(adopt_router_ip(&mut known, &router), None);
    assert_eq!(known.ip.as_deref(), Some("198.51.100.1"));
    assert_eq!(adopt_router_ip(&mut PublicNetworkInfo::default(), &RouterInfo::default()), None);

    apply_router_info(&mut info, router);
    assert_eq!(info.isp.as_deref(), Some("Local ISP"));
    assert_eq!(info.router_info.as_ref().unwrap().public_ip.as_deref(), Some("203.0.113.9"));
    apply_router_info(&mut known, RouterInfo::default());
    assert_eq!(known.isp.as_deref(), Some("Known"));
    assert!(known.router_info.is_some());
}

#[test]
fn host_name_is_the_trimmed_output() {
    assert_eq!(hostname_from_output("my-laptop.local\n").as_deref(), Some("my-laptop.local"));
    assert_eq!(hostname_from_output(" \n"), None);
    assert_eq!(hostname_from_output(""), None);
}
