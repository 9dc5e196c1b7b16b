//! The scan of the hosts of the local network: which hosts to try, which ports to try on
//! them, and the sightings that the scan gives.

use crate::model::{clone_opt, opt_text, NetworkService, ServiceView};
use crate::network_scanner::grouping::service_views;
use crate::network_scanner::network_map::{
    add_to_network_map, distinct_addresses, entries_map, entry_addresses, lemma_entry_replaced,
    reported, HostView, NetworkHost, NetworkMap,
};
use crate::ports::{ascending, lemma_ascending_empty, sorted_port_set};
use crate::text::{
    all_digits, decimal, digits_value, find, find_char, is_digit, is_str, join, join_chars,
    labelled_str, lines, push_chars, push_decimal, push_str, split, split_chars, split_lines,
    str_eq, to_chars, to_text, trim, trim_chars, views,
};
use vstd::prelude::*;
use vstd::slice::slice_subrange;

verus! {

/// A host to try: its address, and its name if the address table gave one.
pub type Candidate = (String, Option<String>);

/// What the candidates hold.
pub open spec fn candidate_views(v: Seq<Candidate>) -> Seq<(Seq<char>, Option<Seq<char>>)> {
    v.map_values(|c: Candidate| (c.0@, opt_text(c.1)))
}

/// Whether `s` writes a number from 0 to 255 in one to three decimal digits.
pub open spec fn is_octet(s: Seq<char>) -> bool {
    1 <= s.len() <= 3 && all_digits(s) && digits_value(s) <= 255
}

/// Whether `s` is an IPv4 address written with dots: four numbers from 0 to 255 with a
/// dot between each two.
pub open spec fn is_dotted_quad(s: Seq<char>) -> bool {
    let parts = split(s, '.');
    parts.len() == 4 && is_octet(parts[0]) && is_octet(parts[1]) && is_octet(parts[2])
        && is_octet(parts[3])
}

/// Whether `s` writes a number from 0 to 255 in one to three decimal digits.
pub fn octet_ok(s: &[char]) -> (r: bool)
    ensures
        r == is_octet(s@),
{
    if s.len() < 1 || s.len() > 3 {
        return false;
    }
    let mut value: u32 = 0;
    let mut i: usize = 0;
    assert(s@.take(0) =~= Seq::<char>::empty());
    while i < s.len()
        invariant
            i <= s.len(),
            s.len() <= 3,
            value == digits_value(s@.take(i as int)),
            value <= 999,
            i == 0 ==> value == 0,
            i == 1 ==> value <= 9,
            i == 2 ==> value <= 99,
            forall|j: int| 0 <= j < i ==> is_digit(#[trigger] s@[j]),
        decreases s.len() - i,
    {
        let c = s[i];
        if c < '0' || c > '9' {
            return false;
        }
        assert(s@.take(i + 1).drop_last() =~= s@.take(i as int));
        value = value * 10 + (c as u32 - '0' as u32);
        i += 1;
    }
    assert(s@.take(i as int) =~= s@);
    value <= 255
}

/// Whether `s` is an IPv4 address written with dots.
pub fn dotted_quad_ok(s: &[char]) -> (r: bool)
    ensures
        r == is_dotted_quad(s@),
{
    let parts = split_chars(s, '.');
    if parts.len() != 4 {
        return false;
    }
    assert(views(parts@)[0] == parts[0]@);
    assert(views(parts@)[1] == parts[1]@);
    assert(views(parts@)[2] == parts[2]@);
    assert(views(parts@)[3] == parts[3]@);
    octet_ok(parts[0].as_slice()) && octet_ok(parts[1].as_slice()) && octet_ok(
        parts[2].as_slice(),
    ) && octet_ok(parts[3].as_slice())
}

/// The host that one line of the address table names. The address stands in round
/// brackets and the name before them; white space around either is dropped. A line gives
/// a host only where the address is an IPv4 address written with dots; the host has no
/// name where the name is empty or a question mark.
pub open spec fn arp_entry(line: Seq<char>) -> Option<(Seq<char>, Option<Seq<char>>)> {
    match find(line, seq!['(']) {
        Some(start) => match find(line, seq![')']) {
            Some(end) => if start < end {
                let name = trim(line.take(start));
                let ip = trim(line.subrange(start + 1, end));
                if is_dotted_quad(ip) {
                    Some(
                        (
                            ip,
                            if name.len() == 0 || name == "?"@ {
                                None
                            } else {
                                Some(name)
                            },
                        ),
                    )
                } else {
                    None
                }
            } else {
                None
            },
            None => None,
        },
        None => None,
    }
}

/// The hosts that the lines of the address table name, in order.
pub open spec fn arp_entries(all: Seq<Seq<char>>) -> Seq<(Seq<char>, Option<Seq<char>>)>
    decreases all.len(),
{
    if all.len() == 0 {
        Seq::<(Seq<char>, Option<Seq<char>>)>::empty()
    } else {
        match arp_entry(all.last()) {
            Some(e) => arp_entries(all.drop_last()).push(e),
            None => arp_entries(all.drop_last()),
        }
    }
}

/// The host that one line of the address table names.
pub fn parse_arp_line(line: &[char]) -> (r: Option<Candidate>)
    ensures
        match r {
            Some(c) => arp_entry(line@) == Some((c.0@, opt_text(c.1))),
            None => arp_entry(line@) is None,
        },
{
    match find_char(line, '(') {
        Some(start) => match find_char(line, ')') {
            Some(end) => {
                if start < end {
                    let before = slice_subrange(line, 0, start);
                    let inside = slice_subrange(line, start + 1, end);
                    assert(before@ =~= line@.take(start as int));
                    let name = trim_chars(before);
                    let ip = trim_chars(inside);
                    if dotted_quad_ok(ip) {
                        let hostname = if name.len() == 0 || is_str(name, "?") {
                            None
                        } else {
                            Some(to_text(name))
                        };
                        Some((to_text(ip), hostname))
                    } else {
                        None
                    }
                } else {
                    None
                }
            },
            None => None,
        },
        None => None,
    }
}

/// The hosts that the output of the address table listing names, in order.
pub fn parse_arp_output(output: &str) -> (out: Vec<Candidate>)
    ensures
        candidate_views(out@) == arp_entries(lines(output@)),
{
    let chars = to_chars(output);
    let all = split_lines(chars.as_slice());
    let mut out: Vec<Candidate> = Vec::new();
    let mut i: usize = 0;
    assert(views(all@).take(0) =~= Seq::<Seq<char>>::empty());
    assert(candidate_views(out@) =~= Seq::<(Seq<char>, Option<Seq<char>>)>::empty());
    while i < all.len()
        invariant
            i <= all.len(),
            candidate_views(out@) == arp_entries(views(all@).take(i as int)),
        decreases all.len() - i,
    {
        assert(views(all@).take(i + 1).drop_last() =~= views(all@).take(i as int));
        assert(views(all@).take(i + 1).last() == all[i as int]@);
        let ghost before = candidate_views(out@);
        match parse_arp_line(all[i].as_slice()) {
            Some(c) => {
                let ghost e = (c.0@, opt_text(c.1));
                out.push(c);
                assert(candidate_views(out@) =~= before.push(e));
            },
            None => {},
        }
        i += 1;
    }
    assert(views(all@).take(i as int) =~= views(all@));
    out
}

/// The first three pieces of an address between its dots, or all of them where it has
/// fewer, with dots between them.
pub open spec fn network_prefix(local_ip: Seq<char>) -> Seq<char> {
    let parts = split(local_ip, '.');
    join(
        if parts.len() > 3 {
            parts.take(3)
        } else {
            parts
        },
        "."@,
    )
}

/// The address with the number `n` under `prefix`.
pub open spec fn subnet_address(prefix: Seq<char>, n: nat) -> Seq<char> {
    prefix + seq!['.'] + decimal(n)
}

/// The hosts numbered 1 to `n` under `prefix`, none with a name.
pub open spec fn subnet_entries(prefix: Seq<char>, n: nat) -> Seq<(Seq<char>, Option<Seq<char>>)>
    decreases n,
{
    if n == 0 {
        Seq::<(Seq<char>, Option<Seq<char>>)>::empty()
    } else {
        subnet_entries(prefix, (n - 1) as nat).push((subnet_address(prefix, n), None))
    }
}

/// The hosts numbered 1 to 254 of the network of the address `local_ip`, none with a name.
pub fn subnet_hosts(local_ip: &str) -> (out: Vec<Candidate>)
    ensures
        candidate_views(out@) == subnet_entries(network_prefix(local_ip@), 254),
{
    let chars = to_chars(local_ip);
    let mut parts = split_chars(chars.as_slice(), '.');
    let ghost all = views(parts@);
    if parts.len() > 3 {
        parts.truncate(3);
        assert(views(parts@) =~= all.take(3));
    }
    let prefix = join_chars(&parts, ".");
    assert(prefix@ == network_prefix(local_ip@));
    let mut out: Vec<Candidate> = Vec::new();
    let mut n: u64 = 0;
    assert(candidate_views(out@) =~= Seq::<(Seq<char>, Option<Seq<char>>)>::empty());
    while n < 254
        invariant
            n <= 254,
            candidate_views(out@) == subnet_entries(prefix@, n as nat),
        decreases 254 - n,
    {
        n += 1;
        let mut address: Vec<char> = Vec::new();
        push_chars(&mut address, prefix.as_slice());
        address.push('.');
        push_decimal(&mut address, n);
        assert(address@ =~= subnet_address(prefix@, n as nat));
        let ghost before = candidate_views(out@);
        out.push((to_text(address.as_slice()), None));
        assert(candidate_views(out@) =~= before.push((subnet_address(prefix@, n as nat), None)));
    }
    out
}

/// The hosts to try. They are those that the address table names; where it could not be
/// listed or names none, they are the hosts of the network of this machine's own address,
/// if that is known.
pub open spec fn candidates(arp_output: Option<Seq<char>>, local_ip: Option<Seq<char>>) -> Seq<
    (Seq<char>, Option<Seq<char>>),
> {
    let listed = match arp_output {
        Some(o) => arp_entries(lines(o)),
        None => Seq::<(Seq<char>, Option<Seq<char>>)>::empty(),
    };
    if listed.len() > 0 {
        listed
    } else {
        match local_ip {
            Some(ip) => subnet_entries(network_prefix(ip), 254),
            None => listed,
        }
    }
}

/// The hosts to try, from the output of the address table listing, if there is one, and
/// this machine's own address, if it is known.
pub fn candidate_hosts(arp_output: &Option<String>, local_ip: &Option<String>) -> (out: Vec<
    Candidate,
>)
    ensures
        candidate_views(out@) == candidates(opt_text(*arp_output), opt_text(*local_ip)),
{
    let listed: Vec<Candidate> = match arp_output {
        Some(o) => parse_arp_output(o.as_str()),
        None => {
            let none: Vec<Candidate> = Vec::new();
            assert(candidate_views(none@) =~= Seq::<(Seq<char>, Option<Seq<char>>)>::empty());
            none
        },
    };
    if listed.len() > 0 {
        listed
    } else {
        match local_ip {
            Some(ip) => subnet_hosts(ip.as_str()),
            None => listed,
        }
    }
}

/// The fifteen TCP ports that are tried on each host, the same for every host. The
/// alternate web ports 8080 and 8443 are not among them: they carry the labels of 80 and
/// 443, which are tried, so that no kind of service goes untried without them. The table
/// of labels still knows them, for sightings that other discovery methods give.
pub open spec fn tcp_catalog() -> Seq<u16> {
    seq![
        20u16,
        21u16,
        22u16,
        23u16,
        25u16,
        53u16,
        80u16,
        110u16,
        443u16,
        587u16,
        993u16,
        995u16,
        3306u16,
        3389u16,
        5432u16,
    ]
}

/// The nine UDP ports that are tried on each host, the same for every host.
pub open spec fn udp_catalog() -> Seq<u16> {
    seq![53u16, 67u16, 68u16, 69u16, 123u16, 161u16, 162u16, 1900u16, 5353u16]
}

/// The fifteen TCP ports that are tried on each host.
pub fn common_tcp_ports() -> (out: Vec<u16>)
    ensures
        out@ == tcp_catalog(),
        out.len() == 15,
        out@.no_duplicates(),
{
    let out = vec![20u16, 21, 22, 23, 25, 53, 80, 110, 443, 587, 993, 995, 3306, 3389, 5432];
    assert(out@ =~= tcp_catalog());
    out
}

/// The nine UDP ports that are tried on each host.
pub fn common_udp_ports() -> (out: Vec<u16>)
    ensures
        out@ == udp_catalog(),
        out.len() == 9,
        out@.no_duplicates(),
{
    let out = vec![53u16, 67, 68, 69, 123, 161, 162, 1900, 5353];
    assert(out@ =~= udp_catalog());
    out
}

/// The service that usually listens on the TCP port `port`, and the same in capitals.
pub open spec fn tcp_label(port: u16) -> (Seq<char>, Seq<char>) {
    if port == 20 || port == 21 {
        ("ftp"@, "FTP"@)
    } else if port == 22 {
        ("ssh"@, "SSH"@)
    } else if port == 23 {
        ("telnet"@, "TELNET"@)
    } else if port == 25 || port == 587 {
        ("smtp"@, "SMTP"@)
    } else if port == 53 {
        ("dns"@, "DNS"@)
    } else if port == 80 || port == 8080 {
        ("http"@, "HTTP"@)
    } else if port == 110 {
        ("pop3"@, "POP3"@)
    } else if port == 443 || port == 8443 {
        ("https"@, "HTTPS"@)
    } else if port == 993 {
        ("imaps"@, "IMAPS"@)
    } else if port == 995 {
        ("pop3s"@, "POP3S"@)
    } else if port == 3306 {
        ("mysql"@, "MYSQL"@)
    } else if port == 3389 {
        ("rdp"@, "RDP"@)
    } else if port == 5432 {
        ("postgresql"@, "POSTGRESQL"@)
    } else {
        ("unknown"@, "UNKNOWN"@)
    }
}

/// The service that usually listens on the UDP port `port`, and the same in capitals.
pub open spec fn udp_label(port: u16) -> (Seq<char>, Seq<char>) {
    if port == 53 {
        ("dns"@, "DNS"@)
    } else if port == 67 || port == 68 {
        ("dhcp"@, "DHCP"@)
    } else if port == 69 {
        ("tftp"@, "TFTP"@)
    } else if port == 123 {
        ("ntp"@, "NTP"@)
    } else if port == 161 || port == 162 {
        ("snmp"@, "SNMP"@)
    } else if port == 1900 {
        ("upnp"@, "UPNP"@)
    } else if port == 5353 {
        ("mdns"@, "MDNS"@)
    } else {
        ("unknown"@, "UNKNOWN"@)
    }
}

/// The service that usually listens on the TCP port `port`, and the same in capitals.
pub fn tcp_service_label(port: u16) -> (r: (&'static str, &'static str))
    ensures
        r.0@ == tcp_label(port).0,
        r.1@ == tcp_label(port).1,
{
    if port == 20 || port == 21 {
        ("ftp", "FTP")
    } else if port == 22 {
        ("ssh", "SSH")
    } else if port == 23 {
        ("telnet", "TELNET")
    } else if port == 25 || port == 587 {
        ("smtp", "SMTP")
    } else if port == 53 {
        ("dns", "DNS")
    } else if port == 80 || port == 8080 {
        ("http", "HTTP")
    } else if port == 110 {
        ("pop3", "POP3")
    } else if port == 443 || port == 8443 {
        ("https", "HTTPS")
    } else if port == 993 {
        ("imaps", "IMAPS")
    } else if port == 995 {
        ("pop3s", "POP3S")
    } else if port == 3306 {
        ("mysql", "MYSQL")
    } else if port == 3389 {
        ("rdp", "RDP")
    } else if port == 5432 {
        ("postgresql", "POSTGRESQL")
    } else {
        ("unknown", "UNKNOWN")
    }
}

/// The service that usually listens on the UDP port `port`, and the same in capitals.
pub fn udp_service_label(port: u16) -> (r: (&'static str, &'static str))
    ensures
        r.0@ == udp_label(port).0,
        r.1@ == udp_label(port).1,
{
    if port == 53 {
        ("dns", "DNS")
    } else if port == 67 || port == 68 {
        ("dhcp", "DHCP")
    } else if port == 69 {
        ("tftp", "TFTP")
    } else if port == 123 {
        ("ntp", "NTP")
    } else if port == 161 || port == 162 {
        ("snmp", "SNMP")
    } else if port == 1900 {
        ("upnp", "UPNP")
    } else if port == 5353 {
        ("mdns", "MDNS")
    } else {
        ("unknown", "UNKNOWN")
    }
}

/// The sighting of an open TCP port.
pub open spec fn tcp_sighting(ip: Seq<char>, port: u16) -> ServiceView {
    let label = tcp_label(port);
    ServiceView {
        name: label.1 + " ("@ + ip + ") on port "@ + decimal(port as nat),
        service_type: label.0,
        address: ip,
        port: Some(port),
        discovery_method: "Network Scan"@,
        details: Some(
            "TCP service discovered on "@ + ip + seq![':'] + decimal(port as nat) + "\nType: "@
                + label.0,
        ),
    }
}

/// The sighting of an open UDP port.
pub open spec fn udp_sighting(ip: Seq<char>, port: u16) -> ServiceView {
    let label = udp_label(port);
    ServiceView {
        name: label.1 + " ("@ + ip + ") on port "@ + decimal(port as nat) + "/udp"@,
        service_type: label.0,
        address: ip,
        port: Some(port),
        discovery_method: "Network Scan"@,
        details: Some(
            "UDP service discovered on "@ + ip + seq![':'] + decimal(port as nat) + "\nType: "@
                + label.0,
        ),
    }
}

/// The sighting of the open TCP port `port` of the host at `ip`.
pub fn tcp_port_service(ip: &str, port: u16) -> (s: NetworkService)
    ensures
        s@ == tcp_sighting(ip@, port),
{
    let (label, upper) = tcp_service_label(port);
    let mut name = to_chars(upper);
    push_str(&mut name, " (");
    push_str(&mut name, ip);
    push_str(&mut name, ") on port ");
    push_decimal(&mut name, port as u64);
    let mut details = to_chars("TCP service discovered on ");
    push_str(&mut details, ip);
    details.push(':');
    push_decimal(&mut details, port as u64);
    push_str(&mut details, "\nType: ");
    push_str(&mut details, label);
    assert(details@ =~= tcp_sighting(ip@, port).details.unwrap());
    NetworkService {
        name: to_text(name.as_slice()),
        service_type: label.to_string(),
        address: ip.to_string(),
        port: Some(port),
        discovery_method: "Network Scan".to_string(),
        details: Some(to_text(details.as_slice())),
    }
}

/// The sighting of the open UDP port `port` of the host at `ip`.
pub fn udp_port_service(ip: &str, port: u16) -> (s: NetworkService)
    ensures
        s@ == udp_sighting(ip@, port),
{
    let (label, upper) = udp_service_label(port);
    let mut name = to_chars(upper);
    push_str(&mut name, " (");
    push_str(&mut name, ip);
    push_str(&mut name, ") on port ");
    push_decimal(&mut name, port as u64);
    push_str(&mut name, "/udp");
    let mut details = to_chars("UDP service discovered on ");
    push_str(&mut details, ip);
    details.push(':');
    push_decimal(&mut details, port as u64);
    push_str(&mut details, "\nType: ");
    push_str(&mut details, label);
    assert(details@ =~= udp_sighting(ip@, port).details.unwrap());
    NetworkService {
        name: to_text(name.as_slice()),
        service_type: label.to_string(),
        address: ip.to_string(),
        port: Some(port),
        discovery_method: "Network Scan".to_string(),
        details: Some(to_text(details.as_slice())),
    }
}

/// The sighting of a host that was tried: under its name, or as `Device at` and its
/// address where it has none.
pub open spec fn host_sighting(ip: Seq<char>, hostname: Option<Seq<char>>) -> ServiceView {
    ServiceView {
        name: match hostname {
            Some(h) => h,
            None => "Device at "@ + ip,
        },
        service_type: "host"@,
        address: ip,
        port: None,
        discovery_method: "Network Scan"@,
        details: Some("Host discovered on network at "@ + ip),
    }
}

/// The sighting of the host at `ip` that was tried.
pub fn host_service(ip: &str, hostname: &Option<String>) -> (s: NetworkService)
    ensures
        s@ == host_sighting(ip@, opt_text(*hostname)),
{
    let name = match hostname {
        Some(h) => h.clone(),
        None => to_text(labelled_str("Device at ", ip).as_slice()),
    };
    NetworkService {
        name,
        service_type: "host".to_string(),
        address: ip.to_string(),
        port: None,
        discovery_method: "Network Scan".to_string(),
        details: Some(to_text(labelled_str("Host discovered on network at ", ip).as_slice())),
    }
}

/// One row for each port: two spaces, the port, and a line feed.
pub open spec fn port_rows(ports: Seq<u16>) -> Seq<char>
    decreases ports.len(),
{
    if ports.len() == 0 {
        Seq::<char>::empty()
    } else {
        port_rows(ports.drop_last()) + "  "@ + decimal(ports.last() as nat) + seq!['\n']
    }
}

/// The ports of one transport under `heading`, in ascending order; nothing where there
/// are none.
pub open spec fn port_block(heading: Seq<char>, ports: Set<u16>) -> Seq<char> {
    if ascending(ports).len() > 0 {
        heading + port_rows(ascending(ports))
    } else {
        Seq::<char>::empty()
    }
}

/// The details of the sighting of a host that the map knows: its address, its name if it
/// has one, and its open TCP and UDP ports.
pub open spec fn device_details(ip: Seq<char>, host: HostView) -> Seq<char> {
    "Host: "@ + ip + seq!['\n'] + (match host.hostname {
        Some(h) => "Hostname: "@ + h + seq!['\n'],
        None => Seq::<char>::empty(),
    }) + port_block("\nOpen TCP ports:\n"@, host.tcp_ports) + port_block(
        "\nOpen UDP ports:\n"@,
        host.udp_ports,
    )
}

/// The sighting of a host that the map knows.
pub open spec fn device_sighting(ip: Seq<char>, host: HostView) -> ServiceView {
    ServiceView {
        name: match host.hostname {
            Some(h) => h,
            None => "Network Device at "@ + ip,
        },
        service_type: "network_device"@,
        address: ip,
        port: None,
        discovery_method: "Network Scan"@,
        details: Some(device_details(ip, host)),
    }
}

/// Appends to `out` the ports under `heading`, unless there are none.
fn push_port_block(out: &mut Vec<char>, heading: &str, ports: &Vec<u16>)
    ensures
        final(out)@ == old(out)@ + (if ports.len() > 0 {
            heading@ + port_rows(ports@)
        } else {
            Seq::<char>::empty()
        }),
{
    if ports.len() > 0 {
        push_str(out, heading);
        let ghost start = out@;
        let mut i: usize = 0;
        assert(ports@.take(0) =~= Seq::<u16>::empty());
        assert(start + Seq::<char>::empty() =~= start);
        while i < ports.len()
            invariant
                i <= ports.len(),
                out@ == start + port_rows(ports@.take(i as int)),
            decreases ports.len() - i,
        {
            assert(ports@.take(i + 1).drop_last() =~= ports@.take(i as int));
            assert(ports@.take(i + 1).last() == ports[i as int]);
            push_str(out, "  ");
            push_decimal(out, ports[i] as u64);
            out.push('\n');
            assert(out@ =~= start + port_rows(ports@.take(i + 1)));
            i += 1;
        }
        assert(ports@.take(i as int) =~= ports@);
        assert(out@ =~= old(out)@ + (heading@ + port_rows(ports@)));
    } else {
        assert(out@ =~= old(out)@ + Seq::<char>::empty());
    }
}

/// The sighting of the host at `ip` that the map knows as `host`.
pub fn network_device_service(ip: &str, host: &NetworkHost) -> (s: NetworkService)
    ensures
        s@ == device_sighting(ip@, host@),
{
    let mut details = to_chars("Host: ");
    push_str(&mut details, ip);
    details.push('\n');
    match &host.hostname {
        Some(h) => {
            push_str(&mut details, "Hostname: ");
            push_str(&mut details, h.as_str());
            details.push('\n');
        },
        None => {},
    }
    let ghost head = details@;
    assert(head =~= "Host: "@ + ip@ + seq!['\n'] + (match host@.hostname {
        Some(h) => "Hostname: "@ + h + seq!['\n'],
        None => Seq::<char>::empty(),
    }));
    let tcp = sorted_port_set(&host.tcp_ports);
    push_port_block(&mut details, "\nOpen TCP ports:\n", &tcp);
    let udp = sorted_port_set(&host.udp_ports);
    push_port_block(&mut details, "\nOpen UDP ports:\n", &udp);
    assert(details@ =~= device_details(ip@, host@));
    let name = match &host.hostname {
        Some(h) => h.clone(),
        None => to_text(labelled_str("Network Device at ", ip).as_slice()),
    };
    NetworkService {
        name,
        service_type: "network_device".to_string(),
        address: ip.to_string(),
        port: None,
        discovery_method: "Network Scan".to_string(),
        details: Some(to_text(details.as_slice())),
    }
}

/// What the scan of one host found: the host, and the TCP and UDP ports that were open.
#[derive(Debug)]
pub struct ScannedHost {
    pub ip: String,
    pub hostname: Option<String>,
    pub open_tcp: Vec<u16>,
    pub open_udp: Vec<u16>,
}

/// The sightings of the open TCP ports `ports` of the host at `ip`, in order.
pub open spec fn tcp_sightings(ip: Seq<char>, ports: Seq<u16>) -> Seq<ServiceView>
    decreases ports.len(),
{
    if ports.len() == 0 {
        Seq::<ServiceView>::empty()
    } else {
        tcp_sightings(ip, ports.drop_last()).push(tcp_sighting(ip, ports.last()))
    }
}

/// The sightings of the open UDP ports `ports` of the host at `ip`, in order.
pub open spec fn udp_sightings(ip: Seq<char>, ports: Seq<u16>) -> Seq<ServiceView>
    decreases ports.len(),
{
    if ports.len() == 0 {
        Seq::<ServiceView>::empty()
    } else {
        udp_sightings(ip, ports.drop_last()).push(udp_sighting(ip, ports.last()))
    }
}

/// The sightings of the open ports of a scanned host: one for each open TCP port, then
/// one for each open UDP port.
pub fn port_services(host: &ScannedHost) -> (out: Vec<NetworkService>)
    ensures
        service_views(out@) == tcp_sightings(host.ip@, host.open_tcp@) + udp_sightings(
            host.ip@,
            host.open_udp@,
        ),
{
    let mut out: Vec<NetworkService> = Vec::new();
    let mut i: usize = 0;
    assert(host.open_tcp@.take(0) =~= Seq::<u16>::empty());
    assert(service_views(out@) =~= Seq::<ServiceView>::empty());
    while i < host.open_tcp.len()
        invariant
            i <= host.open_tcp.len(),
            service_views(out@) == tcp_sightings(host.ip@, host.open_tcp@.take(i as int)),
        decreases host.open_tcp.len() - i,
    {
        assert(host.open_tcp@.take(i + 1).drop_last() =~= host.open_tcp@.take(i as int));
        assert(host.open_tcp@.take(i + 1).last() == host.open_tcp[i as int]);
        let ghost before = service_views(out@);
        let s = tcp_port_service(host.ip.as_str(), host.open_tcp[i]);
        let ghost v = s@;
        out.push(s);
        assert(service_views(out@) =~= before.push(v));
        i += 1;
    }
    assert(host.open_tcp@.take(i as int) =~= host.open_tcp@);
    let ghost tcp = service_views(out@);
    let mut k: usize = 0;
    assert(host.open_udp@.take(0) =~= Seq::<u16>::empty());
    assert(tcp + Seq::<ServiceView>::empty() =~= tcp);
    while k < host.open_udp.len()
        invariant
            k <= host.open_udp.len(),
            service_views(out@) == tcp + udp_sightings(host.ip@, host.open_udp@.take(k as int)),
        decreases host.open_udp.len() - k,
    {
        assert(host.open_udp@.take(k + 1).drop_last() =~= host.open_udp@.take(k as int));
        assert(host.open_udp@.take(k + 1).last() == host.open_udp[k as int]);
        let ghost before = service_views(out@);
        let s = udp_port_service(host.ip.as_str(), host.open_udp[k]);
        let ghost v = s@;
        out.push(s);
        assert(service_views(out@) =~= before.push(v));
        assert(service_views(out@) =~= tcp + udp_sightings(
            host.ip@,
            host.open_udp@.take(k + 1),
        ));
        k += 1;
    }
    assert(host.open_udp@.take(k as int) =~= host.open_udp@);
    out
}

/// Whether the scan found no open port on the host.
pub open spec fn is_silent(h: ScannedHost) -> bool {
    h.open_tcp.len() == 0 && h.open_udp.len() == 0
}

/// The sightings of the scanned hosts on which no port was open, in order.
pub open spec fn silent_sightings(hosts: Seq<ScannedHost>) -> Seq<ServiceView>
    decreases hosts.len(),
{
    if hosts.len() == 0 {
        Seq::<ServiceView>::empty()
    } else {
        let before = silent_sightings(hosts.drop_last());
        let h = hosts.last();
        if is_silent(h) {
            before.push(host_sighting(h.ip@, opt_text(h.hostname)))
        } else {
            before
        }
    }
}

/// Whether one of the sightings is of the address `address`.
pub open spec fn has_address(sightings: Seq<ServiceView>, address: Seq<char>) -> bool {
    exists|i: int| 0 <= i < sightings.len() && (#[trigger] sightings[i]).address == address
}

/// Whether the map knows an open port of the host.
pub open spec fn has_ports(h: HostView) -> bool {
    !(h.tcp_ports =~= Set::<u16>::empty()) || !(h.udp_ports =~= Set::<u16>::empty())
}

/// The sightings `have`, and behind them one for each of the addresses `addresses` of
/// which the map `m` knows an open port and which is not among the sightings before it.
pub open spec fn with_map_sightings(
    have: Seq<ServiceView>,
    addresses: Seq<Seq<char>>,
    m: Map<Seq<char>, HostView>,
) -> Seq<ServiceView>
    decreases addresses.len(),
{
    if addresses.len() == 0 {
        have
    } else {
        let before = with_map_sightings(have, addresses.drop_last(), m);
        let a = addresses.last();
        if has_ports(m[a]) && !has_address(before, a) {
            before.push(device_sighting(a, m[a]))
        } else {
            before
        }
    }
}

/// Whether one of the sightings is of the address `address`.
fn holds_address(sightings: &Vec<NetworkService>, address: &str) -> (r: bool)
    ensures
        r == has_address(service_views(sightings@), address@),
{
    let mut i: usize = 0;
    while i < sightings.len()
        invariant
            i <= sightings.len(),
            forall|j: int|
                0 <= j < i ==> (#[trigger] service_views(sightings@)[j]).address != address@,
        decreases sightings.len() - i,
    {
        assert(service_views(sightings@)[i as int] == sightings[i as int]@);
        if str_eq(sightings[i].address.as_str(), address) {
            return true;
        }
        i += 1;
    }
    false
}

/// The sightings that a scan returns: one for each scanned host on which no port was
/// open, and behind them one for each host of which the map knows an open port and which
/// is not among the sightings yet, in the order of the map.
pub fn scan_results(hosts: &Vec<ScannedHost>, map: &NetworkMap) -> (out: Vec<NetworkService>)
    requires
        map.wf(),
    ensures
        service_views(out@) == with_map_sightings(
            silent_sightings(hosts@),
            map.addresses(),
            map@,
        ),
{
    let mut out: Vec<NetworkService> = Vec::new();
    let mut i: usize = 0;
    assert(hosts@.take(0) =~= Seq::<ScannedHost>::empty());
    assert(service_views(out@) =~= Seq::<ServiceView>::empty());
    while i < hosts.len()
        invariant
            i <= hosts.len(),
            service_views(out@) == silent_sightings(hosts@.take(i as int)),
        decreases hosts.len() - i,
    {
        assert(hosts@.take(i + 1).drop_last() =~= hosts@.take(i as int));
        assert(hosts@.take(i + 1).last() == hosts[i as int]);
        let h = &hosts[i];
        if h.open_tcp.len() == 0 && h.open_udp.len() == 0 {
            let ghost before = service_views(out@);
            let s = host_service(h.ip.as_str(), &h.hostname);
            let ghost v = s@;
            out.push(s);
            assert(service_views(out@) =~= before.push(v));
        }
        i += 1;
    }
    assert(hosts@.take(i as int) =~= hosts@);
    let ghost silent = service_views(out@);
    let entries = map.entries();
    let ghost addresses = map.addresses();
    let mut k: usize = 0;
    assert(addresses.take(0) =~= Seq::<Seq<char>>::empty());
    while k < entries.len()
        invariant
            k <= entries.len(),
            addresses == entry_addresses(entries@),
            addresses == map.addresses(),
            entries_map(entries@) == map@,
            distinct_addresses(entries@),
            service_views(out@) == with_map_sightings(silent, addresses.take(k as int), map@),
        decreases entries.len() - k,
    {
        assert(addresses.take(k + 1).drop_last() =~= addresses.take(k as int));
        assert(addresses.take(k + 1).last() == entries[k as int].address@);
        let e = &entries[k];
        proof {
            lemma_entry_replaced(entries@, k as int, entries[k as int]);
        }
        let tcp = sorted_port_set(&e.host.tcp_ports);
        let udp = sorted_port_set(&e.host.udp_ports);
        proof {
            lemma_ascending_empty(e.host@.tcp_ports);
            lemma_ascending_empty(e.host@.udp_ports);
        }
        if (tcp.len() > 0 || udp.len() > 0) && !holds_address(&out, e.address.as_str()) {
            let ghost before = service_views(out@);
            let s = network_device_service(e.address.as_str(), &e.host);
            let ghost v = s@;
            out.push(s);
            assert(service_views(out@) =~= before.push(v));
        }
        k += 1;
    }
    assert(addresses.take(k as int) =~= addresses);
    out
}

/// The map `m` after the outcome of the scan of one host was taken in: the ports found
/// open are open ports of the host.
pub open spec fn with_scanned_host(m: Map<Seq<char>, HostView>, h: ScannedHost) -> Map<
    Seq<char>,
    HostView,
> {
    reported(m, h.ip@, None, h.open_tcp@.to_set(), h.open_udp@.to_set())
}

/// Takes the outcome of the scan of one host into `map`.
pub fn record_scanned_host(map: &mut NetworkMap, host: &ScannedHost)
    requires
        old(map).wf(),
    ensures
        final(map).wf(),
        final(map)@ == with_scanned_host(old(map)@, *host),
{
    add_to_network_map(
        map,
        host.ip.as_str(),
        None,
        Some(host.open_tcp.clone()),
        Some(host.open_udp.clone()),
    );
}

/// For how many milliseconds one port is tried.
pub const PROBE_TIMEOUT_MILLIS: u64 = 500;

/// The four bytes that are sent to a UDP port to try it.
pub fn udp_probe() -> (out: [u8; 4])
    ensures
        out@ == seq![0u8, 1u8, 2u8, 3u8],
{
    let out: [u8; 4] = [0, 1, 2, 3];
    assert(out@ =~= seq![0u8, 1u8, 2u8, 3u8]);
    out
}

/// Whether a UDP port counts as open: the probe could be sent. Whether an answer came
/// within the time makes no difference, since silence is what an open port mostly gives.
pub fn udp_port_counts_as_open(sent: bool, answered: bool) -> (r: bool)
    ensures
        r == sent,
{
    sent
}

/// The map `m` after a host to try was taken in, with its name if it has one and no port.
pub open spec fn with_candidate(
    m: Map<Seq<char>, HostView>,
    c: (Seq<char>, Option<Seq<char>>),
) -> Map<Seq<char>, HostView> {
    reported(m, c.0, c.1, Set::<u16>::empty(), Set::<u16>::empty())
}

/// Takes a host to try into `map` before it is scanned; returns whether its name still
/// has to be looked up, which is so where the address table gave none.
pub fn seed_host(map: &mut NetworkMap, candidate: &Candidate) -> (lookup: bool)
    requires
        old(map).wf(),
    ensures
        final(map).wf(),
        final(map)@ == with_candidate(old(map)@, (candidate.0@, opt_text(candidate.1))),
        lookup == (candidate.1 is None),
{
    add_to_network_map(map, candidate.0.as_str(), clone_opt(&candidate.1), None, None);
    candidate.1.is_none()
}

/// Each scanned host on which no port was open has a sighting among those of the silent
/// hosts.
pub proof fn lemma_silent_hosts_are_seen(hosts: Seq<ScannedHost>)
    ensures
        forall|k: int|
            0 <= k < hosts.len() && is_silent(#[trigger] hosts[k]) ==> has_address(
                silent_sightings(hosts),
                hosts[k].ip@,
            ),
    decreases hosts.len(),
{
    if hosts.len() > 0 {
        let before = hosts.drop_last();
        lemma_silent_hosts_are_seen(before);
        let seen = silent_sightings(before);
        let now = silent_sightings(hosts);
        assert forall|k: int| 0 <= k < hosts.len() && is_silent(#[trigger] hosts[k]) implies has_address(
            now,
            hosts[k].ip@,
        ) by {
            if k < before.len() {
                assert(before[k] == hosts[k]);
                let i = choose|i: int|
                    0 <= i < seen.len() && (#[trigger] seen[i]).address == hosts[k].ip@;
                assert(now[i] == seen[i]);
            } else {
                assert(now[seen.len() as int].address == hosts[k].ip@);
            }
        }
    }
}

/// No host is left out of what a scan returns: each scanned host on which no port was
/// open has a sighting there, and so has each address of the map of which the map knows
/// an open port.
pub proof fn lemma_scan_leaves_no_host_out(
    hosts: Seq<ScannedHost>,
    addresses: Seq<Seq<char>>,
    m: Map<Seq<char>, HostView>,
)
    ensures
        forall|k: int|
            0 <= k < hosts.len() && is_silent(#[trigger] hosts[k]) ==> has_address(
                with_map_sightings(silent_sightings(hosts), addresses, m),
                hosts[k].ip@,
            ),
        forall|j: int|
            0 <= j < addresses.len() && has_ports(m[#[trigger] addresses[j]]) ==> has_address(
                with_map_sightings(silent_sightings(hosts), addresses, m),
                addresses[j],
            ),
    decreases addresses.len(),
{
    let silent = silent_sightings(hosts);
    if addresses.len() == 0 {
        lemma_silent_hosts_are_seen(hosts);
    } else {
        let earlier = addresses.drop_last();
        lemma_scan_leaves_no_host_out(hosts, earlier, m);
        let before = with_map_sightings(silent, earlier, m);
        let now = with_map_sightings(silent, addresses, m);
        let a = addresses.last();
        assert forall|address: Seq<char>| has_address(before, address) implies has_address(
            now,
            address,
        ) by {
            let i = choose|i: int|
                0 <= i < before.len() && (#[trigger] before[i]).address == address;
            assert(now[i] == before[i]);
        }
        assert forall|j: int|
            0 <= j < addresses.len() && has_ports(m[#[trigger] addresses[j]]) implies has_address(
            now,
            addresses[j],
        ) by {
            if j < earlier.len() {
                assert(earlier[j] == addresses[j]);
                assert(has_address(before, earlier[j]));
            } else if has_address(before, a) {
            } else {
                assert(now[before.len() as int].address == a);
            }
        }
    }
}

} // verus!
