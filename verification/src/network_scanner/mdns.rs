//! Sightings from resolved multicast service records.

use crate::model::{NetworkService, ServiceView};
use crate::network_scanner::network_map::{
    add_to_network_map, lemma_push_to_set, reported, HostView, NetworkMap,
};
use crate::text::{
    contains, decimal, find_char, has_char, is_str, join, join_chars, labelled_str, push_decimal,
    push_str, remove_all, remove_str, split, split_chars, str_contains, texts, to_chars, to_text,
    to_uppercase, uppercase, views,
};
use vstd::prelude::*;

verus! {

/// The service types that are browsed for, in the order in which they are browsed.
pub open spec fn catalog() -> Seq<Seq<char>> {
    seq![
        "_http._tcp.local."@,
        "_https._tcp.local."@,
        "_ssh._tcp.local."@,
        "_device-info._tcp.local."@,
        "_spotify-connect._tcp.local."@,
        "_airplay._tcp.local."@,
        "_googlecast._tcp.local."@,
        "_printer._tcp.local."@,
        "_ipp._tcp.local."@,
        "_homekit._tcp.local."@,
        "_companion-link._tcp.local."@,
    ]
}

/// The service types that are browsed for, in the order in which they are browsed.
pub fn service_types() -> (out: Vec<String>)
    ensures
        texts(out@) == catalog(),
{
    let mut out: Vec<String> = Vec::new();
    out.push("_http._tcp.local.".to_string());
    out.push("_https._tcp.local.".to_string());
    out.push("_ssh._tcp.local.".to_string());
    out.push("_device-info._tcp.local.".to_string());
    out.push("_spotify-connect._tcp.local.".to_string());
    out.push("_airplay._tcp.local.".to_string());
    out.push("_googlecast._tcp.local.".to_string());
    out.push("_printer._tcp.local.".to_string());
    out.push("_ipp._tcp.local.".to_string());
    out.push("_homekit._tcp.local.".to_string());
    out.push("_companion-link._tcp.local.".to_string());
    assert(texts(out@) =~= catalog());
    out
}

/// Whether the message of a failed receive only says that nothing has arrived yet.
pub open spec fn says_empty(message: Seq<char>) -> bool {
    contains(message, "no messages in queue"@) || contains(message, "empty channel"@) || contains(
        message,
        "receiving on an empty channel"@,
    )
}

/// Whether the message of a failed receive only says that nothing has arrived yet. Such a
/// failure is expected while waiting; any other ends the waiting for that service type.
pub fn is_empty_channel(message: &str) -> (r: bool)
    ensures
        r == says_empty(message@),
{
    str_contains(message, "no messages in queue") || str_contains(message, "empty channel")
        || str_contains(message, "receiving on an empty channel")
}

/// One resolved record: the full name of the service, the host that offers it, its port,
/// the addresses of the host, and the key-value pairs that come with it.
#[derive(Debug)]
pub struct ResolvedRecord {
    pub fullname: String,
    pub hostname: String,
    pub port: u16,
    pub addresses: Vec<String>,
    pub properties: Vec<(String, String)>,
}

/// The transport that a browsed service type names.
#[derive(Debug, PartialEq, Eq, Clone, Copy)]
pub enum Transport {
    Tcp,
    Udp,
    Unknown,
}

/// The transport that the browsed service type `query` names.
pub open spec fn transport_of(query: Seq<char>) -> Transport {
    if contains(query, "_tcp"@) {
        Transport::Tcp
    } else if contains(query, "_udp"@) {
        Transport::Udp
    } else {
        Transport::Unknown
    }
}

/// How a transport is written.
pub open spec fn transport_text(t: Transport) -> Seq<char> {
    match t {
        Transport::Tcp => "TCP"@,
        Transport::Udp => "UDP"@,
        Transport::Unknown => "Unknown"@,
    }
}

/// The transport that the browsed service type `query` names.
pub fn transport(query: &str) -> (t: Transport)
    ensures
        t == transport_of(query@),
{
    if str_contains(query, "_tcp") {
        Transport::Tcp
    } else if str_contains(query, "_udp") {
        Transport::Udp
    } else {
        Transport::Unknown
    }
}

/// The browsed service type `query` without `._tcp.local.`, `._udp.local.` and underscores.
pub open spec fn clean_type(query: Seq<char>) -> Seq<char> {
    remove_all(remove_all(remove_all(query, "._tcp.local."@), "._udp.local."@), "_"@)
}

/// The browsed service type `query` without `._tcp.local.`, `._udp.local.` and underscores.
pub fn clean_service_type(query: &str) -> (out: String)
    ensures
        out@ == clean_type(query@),
{
    let chars = to_chars(query);
    let a = remove_str(chars.as_slice(), "._tcp.local.");
    let b = remove_str(a.as_slice(), "._udp.local.");
    let c = remove_str(b.as_slice(), "_");
    to_text(c.as_slice())
}

/// The line for one key-value pair.
pub open spec fn property_line(p: (String, String)) -> Seq<char> {
    "  "@ + p.0@ + ": "@ + p.1@
}

/// The lines for the key-value pairs.
pub open spec fn property_lines(props: Seq<(String, String)>) -> Seq<Seq<char>>
    decreases props.len(),
{
    if props.len() == 0 {
        Seq::<Seq<char>>::empty()
    } else {
        property_lines(props.drop_last()).push(property_line(props.last()))
    }
}

/// The lines for the addresses.
pub open spec fn address_lines(addresses: Seq<String>) -> Seq<Seq<char>>
    decreases addresses.len(),
{
    if addresses.len() == 0 {
        Seq::<Seq<char>>::empty()
    } else {
        address_lines(addresses.drop_last()).push("  "@ + addresses.last()@)
    }
}

/// The lines of the details of the sighting that the record `r` gives when the service
/// type `query` was browsed for: host, full name, cleaned service type, transport and
/// port; the key-value pairs under a heading, if there are any; and all addresses under a
/// heading, if there is more than one.
pub open spec fn mdns_lines(query: Seq<char>, r: ResolvedRecord) -> Seq<Seq<char>> {
    seq![
        "Host: "@ + r.hostname@,
        "Full Name: "@ + r.fullname@,
        "Service Type: "@ + clean_type(query),
        "Protocol: "@ + transport_text(transport_of(query)),
        "Port: "@ + decimal(r.port as nat),
    ] + (if r.properties.len() > 0 {
        seq!["\nTXT Records:"@] + property_lines(r.properties@)
    } else {
        Seq::<Seq<char>>::empty()
    }) + (if r.addresses.len() > 1 {
        seq!["\nAll Addresses:"@] + address_lines(r.addresses@)
    } else {
        Seq::<Seq<char>>::empty()
    })
}

/// The name of the sighting. It is the full name up to its first dot. Where that is empty
/// or is the browsed service type, it is the host name up to its first dot, if the host
/// name has a dot, and else `upper` followed by ` Device`.
pub open spec fn mdns_name(
    query: Seq<char>,
    fullname: Seq<char>,
    hostname: Seq<char>,
    upper: Seq<char>,
) -> Seq<char> {
    let name = split(fullname, '.')[0];
    if name.len() == 0 || name == query {
        if has_char(hostname, '.') {
            split(hostname, '.')[0]
        } else {
            upper + " Device"@
        }
    } else {
        name
    }
}

/// The primary address of a record: its first address, or `Unknown` where it has none.
pub open spec fn primary_address(addresses: Seq<String>) -> Seq<char> {
    if addresses.len() > 0 {
        addresses[0]@
    } else {
        "Unknown"@
    }
}

/// The sighting that the record `r` gives when the service type `query` was browsed for;
/// `upper` is the cleaned service type in upper case.
pub open spec fn resolved(query: Seq<char>, r: ResolvedRecord, upper: Seq<char>) -> ServiceView {
    ServiceView {
        name: mdns_name(query, r.fullname@, r.hostname@, upper),
        service_type: clean_type(query),
        address: primary_address(r.addresses@),
        port: Some(r.port),
        discovery_method: "mDNS"@,
        details: Some(join(mdns_lines(query, r), "\n"@)),
    }
}

/// Puts `line` at the end of `lines`.
fn push_line(lines: &mut Vec<Vec<char>>, line: Vec<char>)
    ensures
        views(final(lines)@) == views(old(lines)@).push(line@),
{
    lines.push(line);
    assert(views(lines@) =~= views(old(lines)@).push(line@));
}

/// The lines of the details of the sighting that the record gives.
fn detail_lines_of(query: &str, r: &ResolvedRecord) -> (lines: Vec<Vec<char>>)
    ensures
        views(lines@) == mdns_lines(query@, *r),
{
    let mut lines: Vec<Vec<char>> = Vec::new();
    assert(views(lines@) =~= Seq::<Seq<char>>::empty());
    push_line(&mut lines, labelled_str("Host: ", r.hostname.as_str()));
    push_line(&mut lines, labelled_str("Full Name: ", r.fullname.as_str()));
    let clean = clean_service_type(query);
    push_line(&mut lines, labelled_str("Service Type: ", clean.as_str()));
    let protocol = match transport(query) {
        Transport::Tcp => "TCP",
        Transport::Udp => "UDP",
        Transport::Unknown => "Unknown",
    };
    push_line(&mut lines, labelled_str("Protocol: ", protocol));
    let mut port_line = to_chars("Port: ");
    push_decimal(&mut port_line, r.port as u64);
    push_line(&mut lines, port_line);
    let ghost head = views(lines@);
    assert(head =~= seq![
        "Host: "@ + r.hostname@,
        "Full Name: "@ + r.fullname@,
        "Service Type: "@ + clean_type(query@),
        "Protocol: "@ + transport_text(transport_of(query@)),
        "Port: "@ + decimal(r.port as nat),
    ]);
    if r.properties.len() > 0 {
        push_line(&mut lines, to_chars("\nTXT Records:"));
        let ghost l1 = views(lines@);
        let mut i: usize = 0;
        assert(r.properties@.take(0) =~= Seq::<(String, String)>::empty());
        assert(l1 + Seq::<Seq<char>>::empty() =~= l1);
        while i < r.properties.len()
            invariant
                i <= r.properties.len(),
                views(lines@) == l1 + property_lines(r.properties@.take(i as int)),
            decreases r.properties.len() - i,
        {
            assert(r.properties@.take(i + 1).drop_last() =~= r.properties@.take(i as int));
            assert(r.properties@.take(i + 1).last() == r.properties[i as int]);
            let mut line = to_chars("  ");
            push_str(&mut line, r.properties[i].0.as_str());
            push_str(&mut line, ": ");
            push_str(&mut line, r.properties[i].1.as_str());
            push_line(&mut lines, line);
            assert(views(lines@) =~= l1 + property_lines(r.properties@.take(i + 1)));
            i += 1;
        }
        assert(r.properties@.take(i as int) =~= r.properties@);
        assert(views(lines@) =~= head + (seq!["\nTXT Records:"@] + property_lines(
            r.properties@,
        )));
    } else {
        assert(views(lines@) =~= head + Seq::<Seq<char>>::empty());
    }
    let ghost middle = views(lines@);
    if r.addresses.len() > 1 {
        push_line(&mut lines, to_chars("\nAll Addresses:"));
        let ghost l2 = views(lines@);
        let mut i: usize = 0;
        assert(r.addresses@.take(0) =~= Seq::<String>::empty());
        assert(l2 + Seq::<Seq<char>>::empty() =~= l2);
        while i < r.addresses.len()
            invariant
                i <= r.addresses.len(),
                views(lines@) == l2 + address_lines(r.addresses@.take(i as int)),
            decreases r.addresses.len() - i,
        {
            assert(r.addresses@.take(i + 1).drop_last() =~= r.addresses@.take(i as int));
            assert(r.addresses@.take(i + 1).last() == r.addresses[i as int]);
            push_line(&mut lines, labelled_str("  ", r.addresses[i].as_str()));
            assert(views(lines@) =~= l2 + address_lines(r.addresses@.take(i + 1)));
            i += 1;
        }
        assert(r.addresses@.take(i as int) =~= r.addresses@);
        assert(views(lines@) =~= middle + (seq!["\nAll Addresses:"@] + address_lines(
            r.addresses@,
        )));
    } else {
        assert(views(lines@) =~= middle + Seq::<Seq<char>>::empty());
    }
    lines
}

/// The name of the sighting; `upper` is the cleaned service type in upper case.
fn name_of(query: &str, r: &ResolvedRecord, upper: &str) -> (out: String)
    ensures
        out@ == mdns_name(query@, r.fullname@, r.hostname@, upper@),
{
    let full = to_chars(r.fullname.as_str());
    let parts = split_chars(full.as_slice(), '.');
    assert(views(parts@)[0] == parts[0]@);
    if parts[0].len() == 0 || is_str(parts[0].as_slice(), query) {
        assert(parts[0]@.len() == 0 || parts[0]@ == query@);
        let host = to_chars(r.hostname.as_str());
        if find_char(host.as_slice(), '.').is_some() {
            let pieces = split_chars(host.as_slice(), '.');
            assert(views(pieces@)[0] == pieces[0]@);
            to_text(pieces[0].as_slice())
        } else {
            to_text(labelled_str(upper, " Device").as_slice())
        }
    } else {
        to_text(parts[0].as_slice())
    }
}

/// The sighting that the record `r` gives when the service type `query` was browsed for;
/// `upper` is the cleaned service type in upper case.
pub fn mdns_service_with(query: &str, r: &ResolvedRecord, upper: &str) -> (s: NetworkService)
    ensures
        s@ == resolved(query@, *r, upper@),
{
    let address = if r.addresses.len() > 0 {
        r.addresses[0].clone()
    } else {
        "Unknown".to_string()
    };
    let lines = detail_lines_of(query, r);
    NetworkService {
        name: name_of(query, r, upper),
        service_type: clean_service_type(query),
        address,
        port: Some(r.port),
        discovery_method: "mDNS".to_string(),
        details: Some(to_text(join_chars(&lines, "\n").as_slice())),
    }
}

/// The sighting that the record `r` gives when the service type `query` was browsed for.
pub fn mdns_service(query: &str, r: &ResolvedRecord) -> (s: NetworkService)
    ensures
        s@ == resolved(query@, *r, uppercase(clean_type(query@))),
{
    let clean = clean_service_type(query);
    let upper = to_uppercase(clean.as_str());
    mdns_service_with(query, r, upper.as_str())
}

/// The map `m` after the record `r` was taken in: its port is an open port of the host at
/// its primary address, of the transport that the browsed service type names; where that
/// names none, the map stays as it is.
pub open spec fn with_mdns_host(m: Map<Seq<char>, HostView>, query: Seq<char>, r: ResolvedRecord) -> Map<
    Seq<char>,
    HostView,
> {
    match transport_of(query) {
        Transport::Tcp => reported(
            m,
            primary_address(r.addresses@),
            Some(r.hostname@),
            set![r.port],
            Set::<u16>::empty(),
        ),
        Transport::Udp => reported(
            m,
            primary_address(r.addresses@),
            Some(r.hostname@),
            Set::<u16>::empty(),
            set![r.port],
        ),
        Transport::Unknown => m,
    }
}

/// Takes the record `r`, resolved when `query` was browsed for, into `map`.
pub fn record_mdns_host(map: &mut NetworkMap, query: &str, r: &ResolvedRecord)
    requires
        old(map).wf(),
    ensures
        final(map).wf(),
        final(map)@ == with_mdns_host(old(map)@, query@, *r),
{
    let address = if r.addresses.len() > 0 {
        r.addresses[0].clone()
    } else {
        "Unknown".to_string()
    };
    let mut ports: Vec<u16> = Vec::new();
    ports.push(r.port);
    proof {
        lemma_push_to_set(Seq::<u16>::empty(), r.port);
        assert(Seq::<u16>::empty().to_set() =~= Set::<u16>::empty());
        assert(ports@ =~= Seq::<u16>::empty().push(r.port));
        assert(ports@.to_set() =~= set![r.port]);
    }
    match transport(query) {
        Transport::Tcp => {
            add_to_network_map(
                map,
                address.as_str(),
                Some(r.hostname.clone()),
                Some(ports),
                None,
            );
        },
        Transport::Udp => {
            add_to_network_map(
                map,
                address.as_str(),
                Some(r.hostname.clone()),
                None,
                Some(ports),
            );
        },
        Transport::Unknown => {},
    }
}

/// For how many seconds resolved records are waited for after a service type was browsed.
pub const BROWSE_WINDOW_SECS: u64 = 2;

/// What to do after an attempt to receive an event failed.
#[derive(Debug, PartialEq, Eq, Clone, Copy)]
pub enum AfterFailure {
    /// Nothing has arrived yet: let other tasks run, then try again.
    Yield,
    /// The failure is a real one: stop waiting for this service type.
    Stop,
}

/// What to do after an attempt to receive an event failed with `message`: a channel that
/// is only empty is tried again, any other failure ends the waiting.
pub fn after_failed_receive(message: &str) -> (r: AfterFailure)
    ensures
        r == if says_empty(message@) {
            AfterFailure::Yield
        } else {
            AfterFailure::Stop
        },
{
    if is_empty_channel(message) {
        AfterFailure::Yield
    } else {
        AfterFailure::Stop
    }
}

} // verus!
