//! What is known of the router and of the link to the provider, from this machine's own
//! configuration.

use crate::model::{clone_opt, opt_text};
use crate::text::{
    contains, contains_str, find, find_str, lines, lowercase, parse_bounded, parse_number, split,
    split_chars, split_lines, split_words, starts_with, starts_with_str, str_eq, texts,
    to_chars, to_lowercase, to_text, trim, trim_chars, views, words,
};
use vstd::prelude::*;
use vstd::slice::slice_subrange;

verus! {

/// One interface of this machine.
#[derive(Debug)]
pub struct NetworkInterface {
    pub name: String,
    pub ip_address: String,
    pub mac_address: Option<String>,
    pub is_default: bool,
    pub interface_type: Option<String>,
}

/// What is known of the link to the provider.
#[derive(Debug)]
pub struct IspConfig {
    pub isp_name: Option<String>,
    pub connection_type: Option<String>,
    pub ipv4: Option<String>,
    pub ipv6: Option<String>,
    pub dns_servers: Vec<String>,
    pub hostname: Option<String>,
    pub uptime: Option<u64>,
}

/// What is known of the router.
#[derive(Debug)]
pub struct RouterInfo {
    pub gateway_ip: Option<String>,
    pub mac_address: Option<String>,
    pub manufacturer: Option<String>,
    pub model: Option<String>,
    pub dns_servers: Vec<String>,
    pub public_ip: Option<String>,
    pub upnp_enabled: Option<bool>,
    pub firmware_version: Option<String>,
    pub isp_config: Option<IspConfig>,
    pub connected_interfaces: Vec<NetworkInterface>,
}

impl Default for NetworkInterface {
    fn default() -> (r: Self)
        ensures
            r.name@.len() == 0,
            r.ip_address@.len() == 0,
            r.mac_address is None,
            !r.is_default,
            r.interface_type is None,
    {
        NetworkInterface {
            name: String::new(),
            ip_address: String::new(),
            mac_address: None,
            is_default: false,
            interface_type: None,
        }
    }
}

impl Default for IspConfig {
    fn default() -> (r: Self)
        ensures
            r.isp_name is None,
            r.connection_type is None,
            r.ipv4 is None,
            r.ipv6 is None,
            r.dns_servers@.len() == 0,
            r.hostname is None,
            r.uptime is None,
    {
        IspConfig {
            isp_name: None,
            connection_type: None,
            ipv4: None,
            ipv6: None,
            dns_servers: Vec::new(),
            hostname: None,
            uptime: None,
        }
    }
}

impl Default for RouterInfo {
    fn default() -> (r: Self)
        ensures
            r.gateway_ip is None,
            r.mac_address is None,
            r.manufacturer is None,
            r.model is None,
            r.dns_servers@.len() == 0,
            r.public_ip is None,
            r.upnp_enabled is None,
            r.firmware_version is None,
            r.isp_config is None,
            r.connected_interfaces@.len() == 0,
    {
        RouterInfo {
            gateway_ip: None,
            mac_address: None,
            manufacturer: None,
            model: None,
            dns_servers: Vec::new(),
            public_ip: None,
            upnp_enabled: None,
            firmware_version: None,
            isp_config: None,
            connected_interfaces: Vec::new(),
        }
    }
}

/// An interface as the system lists it.
#[derive(Debug)]
pub struct FoundInterface {
    pub name: String,
    pub ip_address: String,
    pub is_loopback: bool,
}

/// The kind of link that the name of an interface suggests: Ethernet where it begins with
/// `en`, WiFi where it begins with `wl`.
pub open spec fn link_type(name: Seq<char>) -> Option<Seq<char>> {
    if starts_with(name, "en"@) {
        Some("Ethernet"@)
    } else if starts_with(name, "wl"@) {
        Some("WiFi"@)
    } else {
        None
    }
}

/// The kind of link that the name of an interface suggests.
pub fn interface_type(name: &str) -> (r: Option<String>)
    ensures
        opt_text(r) == link_type(name@),
{
    let chars = to_chars(name);
    if starts_with_str(chars.as_slice(), "en") {
        Some("Ethernet".to_string())
    } else if starts_with_str(chars.as_slice(), "wl") {
        Some("WiFi".to_string())
    } else {
        None
    }
}

/// What a `NetworkInterface` holds.
pub ghost struct InterfaceView {
    pub name: Seq<char>,
    pub ip_address: Seq<char>,
    pub mac_address: Option<Seq<char>>,
    pub is_default: bool,
    pub interface_type: Option<Seq<char>>,
}

impl View for NetworkInterface {
    type V = InterfaceView;

    open spec fn view(&self) -> InterfaceView {
        InterfaceView {
            name: self.name@,
            ip_address: self.ip_address@,
            mac_address: opt_text(self.mac_address),
            is_default: self.is_default,
            interface_type: opt_text(self.interface_type),
        }
    }
}

/// What the interfaces hold.
pub open spec fn interface_views(v: Seq<NetworkInterface>) -> Seq<InterfaceView> {
    v.map_values(|i: NetworkInterface| i@)
}

/// The interface `f` as it is reported, where `default_name` is the name of the interface
/// of the default route, if that is known.
pub open spec fn described_interface(f: FoundInterface, default_name: Option<Seq<char>>) -> InterfaceView {
    InterfaceView {
        name: f.name@,
        ip_address: f.ip_address@,
        mac_address: None,
        is_default: default_name == Some(f.name@),
        interface_type: link_type(f.name@),
    }
}

/// The interfaces that are reported: those of `found` that are no loopback, in order.
pub open spec fn described_interfaces(found: Seq<FoundInterface>, default_name: Option<Seq<char>>) -> Seq<
    InterfaceView,
>
    decreases found.len(),
{
    if found.len() == 0 {
        Seq::<InterfaceView>::empty()
    } else {
        let before = described_interfaces(found.drop_last(), default_name);
        if found.last().is_loopback {
            before
        } else {
            before.push(described_interface(found.last(), default_name))
        }
    }
}

/// The interfaces that are reported: those of `found` that are no loopback, each marked
/// as the default where it has the name `default_name`, and with the kind of link that
/// its name suggests.
pub fn describe_interfaces(found: &Vec<FoundInterface>, default_name: &Option<String>) -> (out: Vec<
    NetworkInterface,
>)
    ensures
        interface_views(out@) == described_interfaces(found@, opt_text(*default_name)),
{
    let mut out: Vec<NetworkInterface> = Vec::new();
    let mut i: usize = 0;
    assert(found@.take(0) =~= Seq::<FoundInterface>::empty());
    assert(interface_views(out@) =~= Seq::<InterfaceView>::empty());
    while i < found.len()
        invariant
            i <= found.len(),
            interface_views(out@) == described_interfaces(
                found@.take(i as int),
                opt_text(*default_name),
            ),
        decreases found.len() - i,
    {
        assert(found@.take(i + 1).drop_last() =~= found@.take(i as int));
        assert(found@.take(i + 1).last() == found[i as int]);
        let f = &found[i];
        if !f.is_loopback {
            let is_default = match default_name {
                Some(d) => str_eq(d.as_str(), f.name.as_str()),
                None => false,
            };
            let ghost before = interface_views(out@);
            let item = NetworkInterface {
                name: f.name.clone(),
                ip_address: f.ip_address.clone(),
                mac_address: None,
                is_default,
                interface_type: interface_type(f.name.as_str()),
            };
            let ghost v = item@;
            out.push(item);
            assert(interface_views(out@) =~= before.push(v));
        }
        i += 1;
    }
    assert(found@.take(i as int) =~= found@);
    out
}

/// The server that one line of a resolver configuration names: the second word of a line
/// that begins with `nameserver`.
pub open spec fn resolv_server(line: Seq<char>) -> Option<Seq<char>> {
    if starts_with(line, "nameserver"@) && words(line).len() >= 2 {
        Some(words(line)[1])
    } else {
        None
    }
}

/// The server that one line of the system's resolver listing names: the last word of a
/// line that begins, after white space, with `nameserver[`.
pub open spec fn scutil_server(line: Seq<char>) -> Option<Seq<char>> {
    if starts_with(trim(line), "nameserver["@) && words(line).len() >= 1 {
        Some(words(line).last())
    } else {
        None
    }
}

/// The server that one line of the interface configuration listing names: what follows
/// the last colon of a line that holds `DNS Servers`, without the white space around it,
/// unless that is empty.
pub open spec fn ipconfig_server(line: Seq<char>) -> Option<Seq<char>> {
    if contains(line, "DNS Servers"@) && trim(split(line, ':').last()).len() > 0 {
        Some(trim(split(line, ':').last()))
    } else {
        None
    }
}

/// The format of a text that names resolvers.
#[derive(Debug, PartialEq, Eq, Clone, Copy)]
pub enum ResolverListing {
    /// A resolver configuration file.
    ResolvConf,
    /// The listing of the system configuration utility.
    Scutil,
    /// The listing of the interface configuration.
    Ipconfig,
}

/// The server that one line of a listing names.
pub open spec fn listed_server(kind: ResolverListing, line: Seq<char>) -> Option<Seq<char>> {
    match kind {
        ResolverListing::ResolvConf => resolv_server(line),
        ResolverListing::Scutil => scutil_server(line),
        ResolverListing::Ipconfig => ipconfig_server(line),
    }
}

/// The servers that the lines of a listing name, in order.
pub open spec fn listed_servers(kind: ResolverListing, all: Seq<Seq<char>>) -> Seq<Seq<char>>
    decreases all.len(),
{
    if all.len() == 0 {
        Seq::<Seq<char>>::empty()
    } else {
        match listed_server(kind, all.last()) {
            Some(s) => listed_servers(kind, all.drop_last()).push(s),
            None => listed_servers(kind, all.drop_last()),
        }
    }
}

/// The server that one line of a listing names.
fn server_of_line(kind: ResolverListing, line: &[char]) -> (r: Option<Vec<char>>)
    ensures
        match r {
            Some(s) => listed_server(kind, line@) == Some(s@),
            None => listed_server(kind, line@) is None,
        },
{
    match kind {
        ResolverListing::ResolvConf => {
            if starts_with_str(line, "nameserver") {
                let mut parts = split_words(line);
                if parts.len() >= 2 {
                    assert(views(parts@)[1] == parts[1]@);
                    Some(parts.swap_remove(1))
                } else {
                    None
                }
            } else {
                None
            }
        },
        ResolverListing::Scutil => {
            if starts_with_str(trim_chars(line), "nameserver[") {
                let mut parts = split_words(line);
                if parts.len() >= 1 {
                    assert(views(parts@).last() == parts[parts.len() - 1]@);
                    parts.pop()
                } else {
                    None
                }
            } else {
                None
            }
        },
        ResolverListing::Ipconfig => {
            if contains_str(line, "DNS Servers") {
                let parts = split_chars(line, ':');
                let last = parts.len() - 1;
                assert(views(parts@).last() == parts[last as int]@);
                let server = trim_chars(parts[last].as_slice());
                if server.len() > 0 {
                    Some(vstd::slice::slice_to_vec(server))
                } else {
                    None
                }
            } else {
                None
            }
        },
    }
}

/// The servers that the listing `text` of the kind `kind` names, in order.
pub fn parse_dns_servers(kind: ResolverListing, text: &str) -> (out: Vec<String>)
    ensures
        texts(out@) == listed_servers(kind, lines(text@)),
{
    let chars = to_chars(text);
    let all = split_lines(chars.as_slice());
    let mut out: Vec<String> = Vec::new();
    let mut i: usize = 0;
    assert(views(all@).take(0) =~= Seq::<Seq<char>>::empty());
    assert(texts(out@) =~= Seq::<Seq<char>>::empty());
    while i < all.len()
        invariant
            i <= all.len(),
            texts(out@) == listed_servers(kind, views(all@).take(i as int)),
        decreases all.len() - i,
    {
        assert(views(all@).take(i + 1).drop_last() =~= views(all@).take(i as int));
        assert(views(all@).take(i + 1).last() == all[i as int]@);
        let ghost before = texts(out@);
        match server_of_line(kind, all[i].as_slice()) {
            Some(s) => {
                out.push(to_text(s.as_slice()));
                assert(texts(out@) =~= before.push(s@));
            },
            None => {},
        }
        i += 1;
    }
    assert(views(all@).take(i as int) =~= views(all@));
    out
}

/// The two public resolvers that stand in where none was found.
pub open spec fn fallback_servers() -> Seq<Seq<char>> {
    seq!["8.8.8.8"@, "1.1.1.1"@]
}

/// The servers `found`, or the two public resolvers where none was found.
pub fn with_fallback_servers(found: Vec<String>) -> (out: Vec<String>)
    ensures
        texts(out@) == if found@.len() > 0 {
            texts(found@)
        } else {
            fallback_servers()
        },
{
    if found.len() > 0 {
        found
    } else {
        let mut out = found;
        out.push("8.8.8.8".to_string());
        out.push("1.1.1.1".to_string());
        assert(texts(out@) =~= fallback_servers());
        out
    }
}

/// The kind of link that the first of the names suggests that suggests one.
pub open spec fn first_link_type(names: Seq<Seq<char>>) -> Option<Seq<char>>
    decreases names.len(),
{
    if names.len() == 0 {
        None
    } else {
        match link_type(names[0]) {
            Some(t) => Some(t),
            None => first_link_type(names.drop_first()),
        }
    }
}

/// The kind of link to the provider: that of the first of the names that suggests one.
/// The names are those of the interfaces that are no loopback, in lower case.
pub fn connection_type_from(names: &Vec<String>) -> (r: Option<String>)
    ensures
        opt_text(r) == first_link_type(texts(names@)),
{
    let mut i: usize = 0;
    assert(texts(names@).skip(0) =~= texts(names@));
    while i < names.len()
        invariant
            i <= names.len(),
            first_link_type(texts(names@)) == first_link_type(texts(names@).skip(i as int)),
        decreases names.len() - i,
    {
        assert(texts(names@).skip(i as int)[0] == names[i as int]@);
        assert(texts(names@).skip(i as int).drop_first() =~= texts(names@).skip(i + 1));
        match interface_type(names[i].as_str()) {
            Some(t) => {
                return Some(t);
            },
            None => {},
        }
        i += 1;
    }
    None
}

/// The names of the interfaces of `found` that are no loopback, each in lower case.
pub open spec fn lowered_names(found: Seq<FoundInterface>) -> Seq<Seq<char>>
    decreases found.len(),
{
    if found.len() == 0 {
        Seq::<Seq<char>>::empty()
    } else {
        let before = lowered_names(found.drop_last());
        if found.last().is_loopback {
            before
        } else {
            before.push(lowercase(found.last().name@))
        }
    }
}

/// The kind of link to the provider that the interfaces suggest: that of the first
/// interface that is no loopback and whose name, in lower case, suggests one.
pub fn connection_type(found: &Vec<FoundInterface>) -> (r: Option<String>)
    ensures
        opt_text(r) == first_link_type(lowered_names(found@)),
{
    let mut names: Vec<String> = Vec::new();
    let mut i: usize = 0;
    assert(found@.take(0) =~= Seq::<FoundInterface>::empty());
    assert(texts(names@) =~= Seq::<Seq<char>>::empty());
    while i < found.len()
        invariant
            i <= found.len(),
            texts(names@) == lowered_names(found@.take(i as int)),
        decreases found.len() - i,
    {
        assert(found@.take(i + 1).drop_last() =~= found@.take(i as int));
        assert(found@.take(i + 1).last() == found[i as int]);
        if !found[i].is_loopback {
            let ghost before = texts(names@);
            let lower = to_lowercase(found[i].name.as_str());
            let ghost l = lower@;
            names.push(lower);
            assert(texts(names@) =~= before.push(l));
        }
        i += 1;
    }
    assert(found@.take(i as int) =~= found@);
    connection_type_from(&names)
}

/// The part of an uptime report that gives the days: what stands between the first `up`
/// and the next `up`, up to the first `days` in it.
pub open spec fn uptime_days_text(report: Seq<char>) -> Option<Seq<char>> {
    match find(report, "up"@) {
        None => None,
        Some(i) => {
            let after = report.skip(i + "up"@.len());
            let piece = match find(after, "up"@) {
                Some(j) => after.take(j),
                None => after,
            };
            Some(
                match find(piece, "days"@) {
                    Some(k) => piece.take(k),
                    None => piece,
                },
            )
        },
    }
}

/// The most days whose seconds can be counted.
pub open spec fn max_days() -> nat {
    (u64::MAX / 86400) as nat
}

/// The uptime in seconds that an uptime report gives: the days that it names, as seconds.
/// None where the report names no days, or more than can be counted in seconds.
pub open spec fn uptime_seconds(report: Seq<char>) -> Option<u64> {
    match uptime_days_text(report) {
        Some(t) => match parse_bounded(trim(t), max_days()) {
            Some(days) => Some((days * 86400) as u64),
            None => None,
        },
        None => None,
    }
}

/// The uptime in seconds that an uptime report gives.
pub fn parse_uptime(report: &str) -> (r: Option<u64>)
    ensures
        r == uptime_seconds(report@),
{
    let chars = to_chars(report);
    let up = to_chars("up");
    match find_str(chars.as_slice(), "up") {
        None => None,
        Some(i) => {
            let after = slice_subrange(chars.as_slice(), i + up.len(), chars.len());
            assert(after@ =~= report@.skip(i + "up"@.len()));
            let piece = match find_str(after, "up") {
                Some(j) => {
                    let p = slice_subrange(after, 0, j);
                    assert(p@ =~= after@.take(j as int));
                    p
                },
                None => after,
            };
            let days_text = match find_str(piece, "days") {
                Some(k) => {
                    let p = slice_subrange(piece, 0, k);
                    assert(p@ =~= piece@.take(k as int));
                    p
                },
                None => piece,
            };
            match parse_number(trim_chars(days_text), u64::MAX / 86400) {
                Some(days) => Some(days * 86400),
                None => None,
            }
        },
    }
}

/// What is known of the link to the provider from this machine alone: its own host name,
/// the kind of link, and the uptime.
pub fn local_isp_config(
    hostname_output: &Option<String>,
    found: &Vec<FoundInterface>,
    uptime_report: &Option<String>,
) -> (c: IspConfig)
    ensures
        c.isp_name is None,
        c.ipv4 is None,
        c.ipv6 is None,
        c.dns_servers@.len() == 0,
        opt_text(c.hostname) == match opt_text(*hostname_output) {
            Some(h) => Some(trim(h)),
            None => None,
        },
        opt_text(c.connection_type) == first_link_type(lowered_names(found@)),
        c.uptime == match opt_text(*uptime_report) {
            Some(r) => uptime_seconds(r),
            None => None,
        },
{
    let hostname = match hostname_output {
        Some(h) => {
            let chars = to_chars(h.as_str());
            Some(to_text(trim_chars(chars.as_slice())))
        },
        None => None,
    };
    let uptime = match uptime_report {
        Some(r) => parse_uptime(r.as_str()),
        None => None,
    };
    IspConfig {
        isp_name: None,
        connection_type: connection_type(found),
        ipv4: None,
        ipv6: None,
        dns_servers: Vec::new(),
        hostname,
        uptime,
    }
}

/// What is known of the router, put together from what was found: the gateway and its
/// hardware address, the interfaces and resolvers where they could be had, and what is
/// known of the link to the provider, whose public address is taken as the router's.
pub fn router_info_from(
    gateway_ip: String,
    mac_address: String,
    interfaces: Option<Vec<NetworkInterface>>,
    dns_servers: Option<Vec<String>>,
    isp_config: Option<IspConfig>,
) -> (r: RouterInfo)
    ensures
        opt_text(r.gateway_ip) == Some(gateway_ip@),
        opt_text(r.mac_address) == Some(mac_address@),
        r.manufacturer is None,
        r.model is None,
        r.upnp_enabled is None,
        r.firmware_version is None,
        r.connected_interfaces@ == match interfaces {
            Some(i) => i@,
            None => Seq::<NetworkInterface>::empty(),
        },
        r.dns_servers@ == match dns_servers {
            Some(d) => d@,
            None => Seq::<String>::empty(),
        },
        r.isp_config == isp_config,
        opt_text(r.public_ip) == match isp_config {
            Some(c) => opt_text(c.ipv4),
            None => None,
        },
{
    let public_ip = match &isp_config {
        Some(c) => clone_opt(&c.ipv4),
        None => None,
    };
    RouterInfo {
        gateway_ip: Some(gateway_ip),
        mac_address: Some(mac_address),
        manufacturer: None,
        model: None,
        dns_servers: match dns_servers {
            Some(d) => d,
            None => Vec::new(),
        },
        public_ip,
        upnp_enabled: None,
        firmware_version: None,
        isp_config,
        connected_interfaces: match interfaces {
            Some(i) => i,
            None => Vec::new(),
        },
    }
}

/// The kind of system that this machine runs.
#[derive(Debug, PartialEq, Eq, Clone, Copy)]
pub enum Platform {
    MacOs,
    /// A Unix other than macOS.
    Unix,
    Windows,
    Other,
}

/// The listings of resolvers that a platform has, in the order in which they are read.
pub open spec fn listings_of(platform: Platform) -> Seq<ResolverListing> {
    match platform {
        Platform::MacOs => seq![ResolverListing::ResolvConf, ResolverListing::Scutil],
        Platform::Unix => seq![ResolverListing::ResolvConf],
        Platform::Windows => seq![ResolverListing::Ipconfig],
        Platform::Other => Seq::<ResolverListing>::empty(),
    }
}

/// The listings of resolvers that a platform has, in the order in which they are read.
pub fn resolver_listings(platform: Platform) -> (out: Vec<ResolverListing>)
    ensures
        out@ == listings_of(platform),
{
    let mut out: Vec<ResolverListing> = Vec::new();
    match platform {
        Platform::MacOs => {
            out.push(ResolverListing::ResolvConf);
            out.push(ResolverListing::Scutil);
        },
        Platform::Unix => {
            out.push(ResolverListing::ResolvConf);
        },
        Platform::Windows => {
            out.push(ResolverListing::Ipconfig);
        },
        Platform::Other => {},
    }
    assert(out@ =~= listings_of(platform));
    out
}

/// Whether a further listing still has to be read: no server was found so far.
pub fn wants_listing(found: &Vec<String>) -> (r: bool)
    ensures
        r == (found@.len() == 0),
{
    found.len() == 0
}

/// The servers found after one more listing: those found before, where there were any;
/// else those that the listing names, where it could be read.
pub open spec fn with_listing(
    found: Seq<Seq<char>>,
    kind: ResolverListing,
    text: Option<Seq<char>>,
) -> Seq<Seq<char>> {
    if found.len() > 0 {
        found
    } else {
        match text {
            Some(t) => listed_servers(kind, lines(t)),
            None => found,
        }
    }
}

/// The servers found after one more listing, of the kind `kind`, whose text is `text`
/// where it could be read.
pub fn take_listing(found: Vec<String>, kind: ResolverListing, text: &Option<String>) -> (out: Vec<
    String,
>)
    ensures
        texts(out@) == with_listing(texts(found@), kind, opt_text(*text)),
{
    if found.len() > 0 {
        found
    } else {
        match text {
            Some(t) => parse_dns_servers(kind, t.as_str()),
            None => found,
        }
    }
}

} // verus!
