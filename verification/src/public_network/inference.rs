//! What a host name or an origin number suggests of the network behind a public address.

use crate::model::opt_text;
use crate::public_network::info::{opt_location, GeoLocation, LocationView};
use crate::text::{
    contains, lowercase, push_chars, split, split_chars, str_contains, str_eq, to_chars,
    to_lowercase, to_text, to_uppercase, uppercase, views,
};
use vstd::prelude::*;

verus! {

/// A part of a host name and the name that it stands for.
pub type Entry = (&'static str, &'static str);

/// What the entries hold.
pub open spec fn entry_views(table: Seq<Entry>) -> Seq<(Seq<char>, Seq<char>)> {
    table.map_values(|e: Entry| (e.0@, e.1@))
}

/// The name of the first entry of `table` whose part stands in `text`.
pub open spec fn first_held(table: Seq<(Seq<char>, Seq<char>)>, text: Seq<char>) -> Option<
    Seq<char>,
>
    decreases table.len(),
{
    if table.len() == 0 {
        None
    } else if contains(text, table[0].0) {
        Some(table[0].1)
    } else {
        first_held(table.drop_first(), text)
    }
}

/// The name of the first entry of `table` whose part is `text`.
pub open spec fn first_equal(table: Seq<(Seq<char>, Seq<char>)>, text: Seq<char>) -> Option<
    Seq<char>,
>
    decreases table.len(),
{
    if table.len() == 0 {
        None
    } else if text == table[0].0 {
        Some(table[0].1)
    } else {
        first_equal(table.drop_first(), text)
    }
}

/// The name of the first entry of `table` whose part stands in `text`.
pub fn lookup_held(table: &Vec<Entry>, text: &str) -> (r: Option<&'static str>)
    ensures
        match r {
            Some(name) => first_held(entry_views(table@), text@) == Some(name@),
            None => first_held(entry_views(table@), text@) is None,
        },
{
    let ghost all = entry_views(table@);
    let mut i: usize = 0;
    assert(all.skip(0) =~= all);
    while i < table.len()
        invariant
            i <= table.len(),
            all == entry_views(table@),
            first_held(all, text@) == first_held(all.skip(i as int), text@),
        decreases table.len() - i,
    {
        assert(all.skip(i as int)[0] == (table[i as int].0@, table[i as int].1@));
        assert(all.skip(i as int).drop_first() =~= all.skip(i + 1));
        if str_contains(text, table[i].0) {
            return Some(table[i].1);
        }
        i += 1;
    }
    None
}

/// The name of the first entry of `table` whose part is `text`.
pub fn lookup_equal(table: &Vec<Entry>, text: &str) -> (r: Option<&'static str>)
    ensures
        match r {
            Some(name) => first_equal(entry_views(table@), text@) == Some(name@),
            None => first_equal(entry_views(table@), text@) is None,
        },
{
    let ghost all = entry_views(table@);
    let mut i: usize = 0;
    assert(all.skip(0) =~= all);
    while i < table.len()
        invariant
            i <= table.len(),
            all == entry_views(table@),
            first_equal(all, text@) == first_equal(all.skip(i as int), text@),
        decreases table.len() - i,
    {
        assert(all.skip(i as int)[0] == (table[i as int].0@, table[i as int].1@));
        assert(all.skip(i as int).drop_first() =~= all.skip(i + 1));
        if str_eq(text, table[i].0) {
            return Some(table[i].1);
        }
        i += 1;
    }
    None
}

/// The providers that are known by a part of their host names.
pub open spec fn isp_table() -> Seq<(Seq<char>, Seq<char>)> {
    seq![
        ("comcast"@, "Comcast"@),
        ("xfinity"@, "Comcast Xfinity"@),
        ("verizon"@, "Verizon"@),
        ("fios"@, "Verizon FiOS"@),
        ("att"@, "AT&T"@),
        ("spectrum"@, "Spectrum"@),
        ("charter"@, "Charter Communications"@),
        ("cox"@, "Cox Communications"@),
        ("centurylink"@, "CenturyLink"@),
        ("frontier"@, "Frontier Communications"@),
        ("windstream"@, "Windstream"@),
        ("suddenlink"@, "Suddenlink"@),
        ("optimum"@, "Optimum"@),
        ("mediacom"@, "Mediacom"@),
        ("wow"@, "WOW! Internet"@),
        ("rcn"@, "RCN"@),
        ("hughesnet"@, "HughesNet"@),
        ("starlink"@, "Starlink"@),
        ("viasat"@, "Viasat"@),
        ("tmobile"@, "T-Mobile"@),
        ("sprint"@, "Sprint"@),
        ("boost"@, "Boost Mobile"@),
        ("cricket"@, "Cricket Wireless"@),
        ("metropcs"@, "Metro by T-Mobile"@),
    ]
}

/// The providers that are known by a part of their host names.
fn isp_entries() -> (out: Vec<Entry>)
    ensures
        entry_views(out@) == isp_table(),
{
    let out: Vec<Entry> = vec![
        ("comcast", "Comcast"),
        ("xfinity", "Comcast Xfinity"),
        ("verizon", "Verizon"),
        ("fios", "Verizon FiOS"),
        ("att", "AT&T"),
        ("spectrum", "Spectrum"),
        ("charter", "Charter Communications"),
        ("cox", "Cox Communications"),
        ("centurylink", "CenturyLink"),
        ("frontier", "Frontier Communications"),
        ("windstream", "Windstream"),
        ("suddenlink", "Suddenlink"),
        ("optimum", "Optimum"),
        ("mediacom", "Mediacom"),
        ("wow", "WOW! Internet"),
        ("rcn", "RCN"),
        ("hughesnet", "HughesNet"),
        ("starlink", "Starlink"),
        ("viasat", "Viasat"),
        ("tmobile", "T-Mobile"),
        ("sprint", "Sprint"),
        ("boost", "Boost Mobile"),
        ("cricket", "Cricket Wireless"),
        ("metropcs", "Metro by T-Mobile"),
    ];
    assert(entry_views(out@) =~= isp_table());
    out
}

/// The provider that a host name in lower case suggests: the first of the known providers
/// whose part stands in it.
pub fn isp_from_lowercase(lower: &str) -> (r: Option<String>)
    ensures
        opt_text(r) == first_held(isp_table(), lower@),
{
    match lookup_held(&isp_entries(), lower) {
        Some(name) => Some(name.to_string()),
        None => None,
    }
}

/// The provider that a host name suggests: the first of the known providers whose part
/// stands in the host name in lower case.
pub fn extract_isp_from_hostname(hostname: &str) -> (r: Option<String>)
    ensures
        opt_text(r) == first_held(isp_table(), lowercase(hostname@)),
{
    let lower = to_lowercase(hostname);
    isp_from_lowercase(lower.as_str())
}

/// The organizations that are known by their domain.
pub open spec fn org_table() -> Seq<(Seq<char>, Seq<char>)> {
    seq![
        ("comcast.net"@, "Comcast"@),
        ("rr.com"@, "Spectrum"@),
        ("amazonaws.com"@, "Amazon Web Services"@),
        ("googlefiber.net"@, "Google Fiber"@),
        ("verizon.net"@, "Verizon"@),
        ("att.net"@, "AT&T"@),
        ("cox.net"@, "Cox Communications"@),
        ("charter.com"@, "Charter Communications"@),
        ("centurylink.net"@, "CenturyLink"@),
        ("frontiernet.net"@, "Frontier Communications"@),
    ]
}

/// The organizations that are known by their domain where the host name has a further
/// label before the domain.
pub open spec fn hosted_org_table() -> Seq<(Seq<char>, Seq<char>)> {
    seq![("googleusercontent.com"@, "Google Cloud"@), ("azure.com"@, "Microsoft Azure"@)]
}

/// The organizations that are known by their domain.
fn org_entries() -> (out: Vec<Entry>)
    ensures
        entry_views(out@) == org_table(),
{
    let out: Vec<Entry> = vec![
        ("comcast.net", "Comcast"),
        ("rr.com", "Spectrum"),
        ("amazonaws.com", "Amazon Web Services"),
        ("googlefiber.net", "Google Fiber"),
        ("verizon.net", "Verizon"),
        ("att.net", "AT&T"),
        ("cox.net", "Cox Communications"),
        ("charter.com", "Charter Communications"),
        ("centurylink.net", "CenturyLink"),
        ("frontiernet.net", "Frontier Communications"),
    ];
    assert(entry_views(out@) =~= org_table());
    out
}

/// The organizations that are known by their domain where the host name has a further
/// label before the domain.
fn hosted_org_entries() -> (out: Vec<Entry>)
    ensures
        entry_views(out@) == hosted_org_table(),
{
    let out: Vec<Entry> = vec![
        ("googleusercontent.com", "Google Cloud"),
        ("azure.com", "Microsoft Azure"),
    ];
    assert(entry_views(out@) =~= hosted_org_table());
    out
}

/// The domain of a host name: its last two labels, with a dot between them.
pub open spec fn domain_of(labels: Seq<Seq<char>>) -> Seq<char> {
    labels[labels.len() - 2] + seq!['.'] + labels[labels.len() - 1]
}

/// The organization that a host name suggests. A host name of one label suggests none.
/// Else it is the organization known by the domain of the host name; else, where the host
/// name has a label before the domain, the organization known by the domain of such host
/// names; else the domain itself.
pub open spec fn org_of(hostname: Seq<char>) -> Option<Seq<char>> {
    let labels = split(hostname, '.');
    if labels.len() < 2 {
        None
    } else {
        let domain = domain_of(labels);
        match first_equal(org_table(), domain) {
            Some(name) => Some(name),
            None => if labels.len() >= 3 {
                match first_equal(hosted_org_table(), domain) {
                    Some(name) => Some(name),
                    None => Some(domain),
                }
            } else {
                Some(domain)
            },
        }
    }
}

/// The organization that a host name suggests.
pub fn extract_org_from_hostname(hostname: &str) -> (r: Option<String>)
    ensures
        opt_text(r) == org_of(hostname@),
{
    let chars = to_chars(hostname);
    let labels = split_chars(chars.as_slice(), '.');
    let n = labels.len();
    if n < 2 {
        return None;
    }
    assert(views(labels@)[n - 2] == labels[n - 2]@);
    assert(views(labels@)[n - 1] == labels[n - 1]@);
    let mut domain_chars: Vec<char> = Vec::new();
    push_chars(&mut domain_chars, labels[n - 2].as_slice());
    domain_chars.push('.');
    push_chars(&mut domain_chars, labels[n - 1].as_slice());
    assert(domain_chars@ =~= domain_of(views(labels@)));
    let domain = to_text(domain_chars.as_slice());
    match lookup_equal(&org_entries(), domain.as_str()) {
        Some(name) => Some(name.to_string()),
        None => {
            if n >= 3 {
                match lookup_equal(&hosted_org_entries(), domain.as_str()) {
                    Some(name) => Some(name.to_string()),
                    None => Some(domain),
                }
            } else {
                Some(domain)
            }
        },
    }
}

/// Whether `text` holds one of `parts`.
pub open spec fn holds_one(text: Seq<char>, parts: Seq<Seq<char>>) -> bool
    decreases parts.len(),
{
    if parts.len() == 0 {
        false
    } else {
        contains(text, parts[0]) || holds_one(text, parts.drop_first())
    }
}

/// The parts of a host name that suggest a VPN or a proxy.
pub open spec fn vpn_words() -> Seq<Seq<char>> {
    seq!["vpn"@, "proxy"@, "tor"@, "exit"@, "node"@, "relay"@, "tunnel"@]
}

/// The parts of a host name that suggest a hosting provider.
pub open spec fn hosting_words() -> Seq<Seq<char>> {
    seq!["aws"@, "amazon"@, "azure"@, "google"@, "cloud"@, "host"@, "server"@, "cdn"@, "vps"@]
}

/// The origin numbers that are known for VPNs.
pub open spec fn vpn_origins() -> Seq<Seq<char>> {
    seq!["as60068"@, "as16276"@, "as51852"@, "as14618"@]
}

/// Whether `text` holds one of `parts`.
fn holds_one_of(text: &str, parts: &Vec<&'static str>) -> (r: bool)
    ensures
        r == holds_one(text@, parts@.map_values(|p: &'static str| p@)),
{
    let ghost all = parts@.map_values(|p: &'static str| p@);
    let mut i: usize = 0;
    assert(all.skip(0) =~= all);
    while i < parts.len()
        invariant
            i <= parts.len(),
            all == parts@.map_values(|p: &'static str| p@),
            holds_one(text@, all) == holds_one(text@, all.skip(i as int)),
        decreases parts.len() - i,
    {
        assert(all.skip(i as int)[0] == parts[i as int]@);
        assert(all.skip(i as int).drop_first() =~= all.skip(i + 1));
        if str_contains(text, parts[i]) {
            return true;
        }
        i += 1;
    }
    false
}

/// Whether a host name in lower case suggests a VPN or a proxy.
pub fn suggests_vpn(lower_hostname: &str) -> (r: bool)
    ensures
        r == holds_one(lower_hostname@, vpn_words()),
{
    let parts: Vec<&'static str> = vec!["vpn", "proxy", "tor", "exit", "node", "relay", "tunnel"];
    assert(parts@.map_values(|p: &'static str| p@) =~= vpn_words());
    holds_one_of(lower_hostname, &parts)
}

/// Whether a host name in lower case suggests a hosting provider.
pub fn suggests_hosting(lower_hostname: &str) -> (r: bool)
    ensures
        r == holds_one(lower_hostname@, hosting_words()),
{
    let parts: Vec<&'static str> = vec![
        "aws",
        "amazon",
        "azure",
        "google",
        "cloud",
        "host",
        "server",
        "cdn",
        "vps",
    ];
    assert(parts@.map_values(|p: &'static str| p@) =~= hosting_words());
    holds_one_of(lower_hostname, &parts)
}

/// Whether an origin number in lower case is one known for VPNs.
pub fn is_vpn_origin(lower_asn: &str) -> (r: bool)
    ensures
        r == holds_one(lower_asn@, vpn_origins()),
{
    let parts: Vec<&'static str> = vec!["as60068", "as16276", "as51852", "as14618"];
    assert(parts@.map_values(|p: &'static str| p@) =~= vpn_origins());
    holds_one_of(lower_asn, &parts)
}

/// Whether the address is taken for one of a VPN, of a proxy, and of a hosting provider.
#[derive(Debug, PartialEq, Eq, Clone, Copy)]
pub struct PrivacyFlags {
    pub is_vpn: Option<bool>,
    pub is_proxy: Option<bool>,
    pub is_hosting: Option<bool>,
}

/// `flag`, or false where it is not set.
pub open spec fn or_false(flag: Option<bool>) -> Option<bool> {
    match flag {
        Some(_) => flag,
        None => Some(false),
    }
}

/// The flags `before` after the host name and the origin number, both in lower case, were
/// looked at. A host name with a word for a VPN or a proxy, or an origin number known for
/// VPNs, sets both the VPN and the proxy flag; a host name with a word for hosting sets
/// the hosting flag; a flag that is still not set becomes false.
pub open spec fn inferred_flags(
    before: PrivacyFlags,
    lower_hostname: Option<Seq<char>>,
    lower_asn: Option<Seq<char>>,
) -> PrivacyFlags {
    let by_name = match lower_hostname {
        Some(h) => holds_one(h, vpn_words()),
        None => false,
    };
    let by_origin = match lower_asn {
        Some(a) => holds_one(a, vpn_origins()),
        None => false,
    };
    let hosting = match lower_hostname {
        Some(h) => holds_one(h, hosting_words()),
        None => false,
    };
    PrivacyFlags {
        is_vpn: if by_name || by_origin {
            Some(true)
        } else {
            or_false(before.is_vpn)
        },
        is_proxy: if by_name || by_origin {
            Some(true)
        } else {
            or_false(before.is_proxy)
        },
        is_hosting: if hosting {
            Some(true)
        } else {
            or_false(before.is_hosting)
        },
    }
}

/// The flags `before` after the host name and the origin number, both in lower case, were
/// looked at.
pub fn infer_flags(
    before: PrivacyFlags,
    lower_hostname: &Option<String>,
    lower_asn: &Option<String>,
) -> (r: PrivacyFlags)
    ensures
        r == inferred_flags(before, opt_text(*lower_hostname), opt_text(*lower_asn)),
{
    let mut flags = before;
    match lower_hostname {
        Some(h) => {
            if suggests_vpn(h.as_str()) {
                flags.is_vpn = Some(true);
                flags.is_proxy = Some(true);
            }
            if suggests_hosting(h.as_str()) {
                flags.is_hosting = Some(true);
            }
        },
        None => {},
    }
    match lower_asn {
        Some(a) => {
            if is_vpn_origin(a.as_str()) {
                flags.is_vpn = Some(true);
                flags.is_proxy = Some(true);
            }
        },
        None => {},
    }
    if flags.is_vpn.is_none() {
        flags.is_vpn = Some(false);
    }
    if flags.is_proxy.is_none() {
        flags.is_proxy = Some(false);
    }
    if flags.is_hosting.is_none() {
        flags.is_hosting = Some(false);
    }
    flags
}

/// `text` in lower case, if there is one.
pub open spec fn lowered(text: Option<Seq<char>>) -> Option<Seq<char>> {
    match text {
        Some(t) => Some(lowercase(t)),
        None => None,
    }
}

/// `text` in lower case, if there is one.
pub fn lower_of(text: &Option<String>) -> (r: Option<String>)
    ensures
        opt_text(r) == lowered(opt_text(*text)),
{
    match text {
        Some(t) => Some(to_lowercase(t.as_str())),
        None => None,
    }
}

/// A part of a host name, and the city, region and country that it stands for; the region
/// is empty where none is known.
pub type Place = (&'static str, &'static str, &'static str, &'static str);

/// What the places hold.
pub open spec fn place_views(table: Seq<Place>) -> Seq<(Seq<char>, Seq<char>, Seq<char>, Seq<char>)> {
    table.map_values(|p: Place| (p.0@, p.1@, p.2@, p.3@))
}

/// The places that are known by a part of a host name: first the short codes of cities,
/// then the names of cities.
pub open spec fn place_table() -> Seq<(Seq<char>, Seq<char>, Seq<char>, Seq<char>)> {
    seq![
        ("dfw"@, "Dallas"@, "Texas"@, "US"@),
        ("nyc"@, "New York City"@, "New York"@, "US"@),
        ("sfo"@, "San Francisco"@, "California"@, "US"@),
        ("lax"@, "Los Angeles"@, "California"@, "US"@),
        ("chi"@, "Chicago"@, "Illinois"@, "US"@),
        ("atl"@, "Atlanta"@, "Georgia"@, "US"@),
        ("sea"@, "Seattle"@, "Washington"@, "US"@),
        ("bos"@, "Boston"@, "Massachusetts"@, "US"@),
        ("iad"@, "Washington"@, "DC"@, "US"@),
        ("den"@, "Denver"@, "Colorado"@, "US"@),
        ("lon"@, "London"@, ""@, "UK"@),
        ("fra"@, "Frankfurt"@, ""@, "Germany"@),
        ("ams"@, "Amsterdam"@, ""@, "Netherlands"@),
        ("par"@, "Paris"@, ""@, "France"@),
        ("syd"@, "Sydney"@, ""@, "Australia"@),
        ("sin"@, "Singapore"@, ""@, "Singapore"@),
        ("hkg"@, "Hong Kong"@, ""@, "China"@),
        ("nrt"@, "Tokyo"@, ""@, "Japan"@),
        ("dallas"@, "Dallas"@, "Texas"@, "US"@),
        ("newyork"@, "New York City"@, "New York"@, "US"@),
        ("francisco"@, "San Francisco"@, "California"@, "US"@),
        ("angeles"@, "Los Angeles"@, "California"@, "US"@),
        ("chicago"@, "Chicago"@, "Illinois"@, "US"@),
        ("atlanta"@, "Atlanta"@, "Georgia"@, "US"@),
        ("seattle"@, "Seattle"@, "Washington"@, "US"@),
        ("boston"@, "Boston"@, "Massachusetts"@, "US"@),
        ("washington"@, "Washington"@, "DC"@, "US"@),
        ("denver"@, "Denver"@, "Colorado"@, "US"@),
        ("london"@, "London"@, ""@, "UK"@),
        ("frankfurt"@, "Frankfurt"@, ""@, "Germany"@),
        ("amsterdam"@, "Amsterdam"@, ""@, "Netherlands"@),
        ("paris"@, "Paris"@, ""@, "France"@),
        ("sydney"@, "Sydney"@, ""@, "Australia"@),
        ("singapore"@, "Singapore"@, ""@, "Singapore"@),
        ("hongkong"@, "Hong Kong"@, ""@, "China"@),
        ("tokyo"@, "Tokyo"@, ""@, "Japan"@),
    ]
}

/// The places that are known by a part of a host name.
fn place_entries() -> (out: Vec<Place>)
    ensures
        place_views(out@) == place_table(),
{
    let out: Vec<Place> = vec![
        ("dfw", "Dallas", "Texas", "US"),
        ("nyc", "New York City", "New York", "US"),
        ("sfo", "San Francisco", "California", "US"),
        ("lax", "Los Angeles", "California", "US"),
        ("chi", "Chicago", "Illinois", "US"),
        ("atl", "Atlanta", "Georgia", "US"),
        ("sea", "Seattle", "Washington", "US"),
        ("bos", "Boston", "Massachusetts", "US"),
        ("iad", "Washington", "DC", "US"),
        ("den", "Denver", "Colorado", "US"),
        ("lon", "London", "", "UK"),
        ("fra", "Frankfurt", "", "Germany"),
        ("ams", "Amsterdam", "", "Netherlands"),
        ("par", "Paris", "", "France"),
        ("syd", "Sydney", "", "Australia"),
        ("sin", "Singapore", "", "Singapore"),
        ("hkg", "Hong Kong", "", "China"),
        ("nrt", "Tokyo", "", "Japan"),
        ("dallas", "Dallas", "Texas", "US"),
        ("newyork", "New York City", "New York", "US"),
        ("francisco", "San Francisco", "California", "US"),
        ("angeles", "Los Angeles", "California", "US"),
        ("chicago", "Chicago", "Illinois", "US"),
        ("atlanta", "Atlanta", "Georgia", "US"),
        ("seattle", "Seattle", "Washington", "US"),
        ("boston", "Boston", "Massachusetts", "US"),
        ("washington", "Washington", "DC", "US"),
        ("denver", "Denver", "Colorado", "US"),
        ("london", "London", "", "UK"),
        ("frankfurt", "Frankfurt", "", "Germany"),
        ("amsterdam", "Amsterdam", "", "Netherlands"),
        ("paris", "Paris", "", "France"),
        ("sydney", "Sydney", "", "Australia"),
        ("singapore", "Singapore", "", "Singapore"),
        ("hongkong", "Hong Kong", "", "China"),
        ("tokyo", "Tokyo", "", "Japan"),
    ];
    assert(place_views(out@) =~= place_table());
    out
}

/// The location that a place stands for.
pub open spec fn place_location(p: (Seq<char>, Seq<char>, Seq<char>, Seq<char>)) -> LocationView {
    LocationView {
        city: Some(p.1),
        region: if p.2.len() > 0 {
            Some(p.2)
        } else {
            None
        },
        country: Some(p.3),
        postal: None,
        timezone: None,
    }
}

/// The location of the first place of `table` whose part stands in `text`.
pub open spec fn first_place(
    table: Seq<(Seq<char>, Seq<char>, Seq<char>, Seq<char>)>,
    text: Seq<char>,
) -> Option<LocationView>
    decreases table.len(),
{
    if table.len() == 0 {
        None
    } else if contains(text, table[0].0) {
        Some(place_location(table[0]))
    } else {
        first_place(table.drop_first(), text)
    }
}

/// The location that a host name in lower case suggests: that of the first of the known
/// places whose part stands in it.
pub fn location_from_lowercase(lower: &str) -> (r: Option<GeoLocation>)
    ensures
        opt_location(r) == first_place(place_table(), lower@),
{
    let table = place_entries();
    let ghost all = place_views(table@);
    let mut i: usize = 0;
    assert(all.skip(0) =~= all);
    while i < table.len()
        invariant
            i <= table.len(),
            all == place_views(table@),
            all == place_table(),
            first_place(all, lower@) == first_place(all.skip(i as int), lower@),
        decreases table.len() - i,
    {
        assert(all.skip(i as int)[0] == (
            table[i as int].0@,
            table[i as int].1@,
            table[i as int].2@,
            table[i as int].3@,
        ));
        assert(all.skip(i as int).drop_first() =~= all.skip(i + 1));
        if str_contains(lower, table[i].0) {
            let region = if table[i].2.is_empty() {
                None
            } else {
                Some(table[i].2.to_string())
            };
            return Some(
                GeoLocation {
                    city: Some(table[i].1.to_string()),
                    region,
                    country: Some(table[i].3.to_string()),
                    postal: None,
                    timezone: None,
                },
            );
        }
        i += 1;
    }
    None
}

/// The location that a host name suggests: that of the first of the known places whose
/// part stands in the host name in lower case.
pub fn infer_location_from_hostname(hostname: &str) -> (r: Option<GeoLocation>)
    ensures
        opt_location(r) == first_place(place_table(), lowercase(hostname@)),
{
    let lower = to_lowercase(hostname);
    location_from_lowercase(lower.as_str())
}

/// The countries of the origin numbers that are known.
pub open spec fn origin_table() -> Seq<(Seq<char>, Seq<char>)> {
    seq![
        ("AS7922"@, "United States"@),
        ("AS701"@, "United States"@),
        ("AS7018"@, "United States"@),
        ("AS3356"@, "United States"@),
        ("AS174"@, "United States"@),
        ("AS2856"@, "United Kingdom"@),
        ("AS3320"@, "Germany"@),
        ("AS12322"@, "France"@),
        ("AS4766"@, "South Korea"@),
        ("AS4134"@, "China"@),
    ]
}

/// The countries of the origin numbers that are known.
fn origin_entries() -> (out: Vec<Entry>)
    ensures
        entry_views(out@) == origin_table(),
{
    let out: Vec<Entry> = vec![
        ("AS7922", "United States"),
        ("AS701", "United States"),
        ("AS7018", "United States"),
        ("AS3356", "United States"),
        ("AS174", "United States"),
        ("AS2856", "United Kingdom"),
        ("AS3320", "Germany"),
        ("AS12322", "France"),
        ("AS4766", "South Korea"),
        ("AS4134", "China"),
    ];
    assert(entry_views(out@) =~= origin_table());
    out
}

/// The location of which only the country `country` is known, if there is one.
pub open spec fn country_location(country: Option<Seq<char>>) -> Option<LocationView> {
    match country {
        Some(c) => Some(
            LocationView { city: None, region: None, country: Some(c), postal: None, timezone: None },
        ),
        None => None,
    }
}

/// The location that an origin number in upper case suggests: the country of that origin
/// number, where it is one of those known.
pub fn location_from_uppercase(upper: &str) -> (r: Option<GeoLocation>)
    ensures
        opt_location(r) == country_location(first_equal(origin_table(), upper@)),
{
    match lookup_equal(&origin_entries(), upper) {
        Some(country) => Some(
            GeoLocation {
                city: None,
                region: None,
                country: Some(country.to_string()),
                postal: None,
                timezone: None,
            },
        ),
        None => None,
    }
}

/// The location that an origin number suggests: the country of the origin number in upper
/// case, where that is one of those known.
pub fn infer_location_from_asn(asn: &str) -> (r: Option<GeoLocation>)
    ensures
        opt_location(r) == country_location(first_equal(origin_table(), uppercase(asn@))),
{
    let upper = to_uppercase(asn);
    location_from_uppercase(upper.as_str())
}

} // verus!
