//! What is known of each host: its name and the ports found open on it.

use crate::model::{clone_opt, opt_text};
use crate::text::str_eq;
use std::collections::HashSet;
use vstd::prelude::*;

verus! {

/// One host: its name, if known, and the TCP and UDP ports found open on it.
#[derive(Debug)]
pub struct NetworkHost {
    pub hostname: Option<String>,
    pub tcp_ports: HashSet<u16>,
    pub udp_ports: HashSet<u16>,
}

/// What a `NetworkHost` holds.
pub ghost struct HostView {
    pub hostname: Option<Seq<char>>,
    pub tcp_ports: Set<u16>,
    pub udp_ports: Set<u16>,
}

impl View for NetworkHost {
    type V = HostView;

    open spec fn view(&self) -> HostView {
        HostView {
            hostname: opt_text(self.hostname),
            tcp_ports: self.tcp_ports@,
            udp_ports: self.udp_ports@,
        }
    }
}

/// A copy of the set `ports`.
fn copy_ports(ports: &HashSet<u16>) -> (out: HashSet<u16>)
    ensures
        out@ == ports@,
{
    let mut out: HashSet<u16> = HashSet::new();
    for p in it: ports.iter()
        invariant
            it.seq().unref().to_set() == ports@,
            forall|q: u16| out@.contains(q) ==> ports@.contains(q),
            forall|i: int| 0 <= i < it.index() ==> out@.contains(#[trigger] it.seq().unref()[i]),
    {
        assert(it.seq().unref()[it.index()] == *p);
        assert(it.seq().unref().contains(*p));
        out.insert(*p);
    }
    assert(out@ =~= ports@);
    out
}

impl Clone for NetworkHost {
    fn clone(&self) -> (r: Self)
        ensures
            r@ == self@,
    {
        NetworkHost {
            hostname: clone_opt(&self.hostname),
            tcp_ports: copy_ports(&self.tcp_ports),
            udp_ports: copy_ports(&self.udp_ports),
        }
    }
}

impl NetworkHost {
    /// A host with the given name and no open ports.
    pub fn new(hostname: Option<String>) -> (host: Self)
        ensures
            host@ == (HostView {
                hostname: opt_text(hostname),
                tcp_ports: Set::<u16>::empty(),
                udp_ports: Set::<u16>::empty(),
            }),
    {
        NetworkHost { hostname, tcp_ports: HashSet::new(), udp_ports: HashSet::new() }
    }

    /// Notes that the TCP port `port` is open.
    pub fn add_tcp_port(&mut self, port: u16)
        ensures
            final(self)@ == (HostView {
                tcp_ports: old(self)@.tcp_ports.insert(port),
                ..old(self)@
            }),
    {
        self.tcp_ports.insert(port);
    }

    /// Notes that the UDP port `port` is open.
    pub fn add_udp_port(&mut self, port: u16)
        ensures
            final(self)@ == (HostView {
                udp_ports: old(self)@.udp_ports.insert(port),
                ..old(self)@
            }),
    {
        self.udp_ports.insert(port);
    }
}

/// Whether `hostname` is a name: it is there and is not empty.
pub fn holds_name(hostname: &Option<String>) -> (r: bool)
    ensures
        r == is_name(opt_text(*hostname)),
{
    match hostname {
        Some(h) => !h.as_str().is_empty(),
        None => false,
    }
}

/// The ports of an optional list, as a set.
pub open spec fn port_set(ports: Option<Vec<u16>>) -> Set<u16> {
    match ports {
        Some(v) => v@.to_set(),
        None => Set::<u16>::empty(),
    }
}

/// Whether `hostname` is a name: it is there and is not empty.
pub open spec fn is_name(hostname: Option<Seq<char>>) -> bool {
    match hostname {
        Some(h) => h.len() > 0,
        None => false,
    }
}

/// The name of a host that has the name `before` after the name `reported` was reported:
/// the first name that is not empty wins. A name that the host has stays; where it has
/// none, a reported name becomes its name; an empty text is no name and changes nothing.
pub open spec fn name_with(before: Option<Seq<char>>, reported: Option<Seq<char>>) -> Option<
    Seq<char>,
> {
    if is_name(before) {
        before
    } else if is_name(reported) {
        reported
    } else {
        before
    }
}

/// The host `before` after a report of the name `hostname` and of the open ports `tcp`
/// and `udp`: the first name that is not empty wins, and the ports are added to those it
/// has.
pub open spec fn host_with(
    before: HostView,
    hostname: Option<Seq<char>>,
    tcp: Set<u16>,
    udp: Set<u16>,
) -> HostView {
    HostView {
        hostname: name_with(before.hostname, hostname),
        tcp_ports: before.tcp_ports.union(tcp),
        udp_ports: before.udp_ports.union(udp),
    }
}

/// A host of which nothing is known.
pub open spec fn unknown_host() -> HostView {
    HostView { hostname: None, tcp_ports: Set::<u16>::empty(), udp_ports: Set::<u16>::empty() }
}

/// What `m` knows of the host at `ip`; nothing where it has no entry for it.
pub open spec fn known_of(m: Map<Seq<char>, HostView>, ip: Seq<char>) -> HostView {
    if m.contains_key(ip) {
        m[ip]
    } else {
        unknown_host()
    }
}

/// The map `m` after a report on the host at `ip`.
pub open spec fn reported(
    m: Map<Seq<char>, HostView>,
    ip: Seq<char>,
    hostname: Option<Seq<char>>,
    tcp: Set<u16>,
    udp: Set<u16>,
) -> Map<Seq<char>, HostView> {
    m.insert(ip, host_with(known_of(m, ip), hostname, tcp, udp))
}

/// One entry of the map: an address and what is known of the host there.
#[derive(Debug)]
pub struct MapEntry {
    pub address: String,
    pub host: NetworkHost,
}

/// What is known of the hosts of the network, by address. The entries stand in the order
/// in which their addresses were first reported.
#[derive(Debug)]
pub struct NetworkMap {
    entries: Vec<MapEntry>,
}

/// Whether no two of the entries have the same address.
pub open spec fn distinct_addresses(e: Seq<MapEntry>) -> bool {
    forall|i: int, j: int|
        0 <= i < j < e.len() ==> (#[trigger] e[i]).address@ != (#[trigger] e[j]).address@
}

/// Whether one of the entries has the address `a`.
pub open spec fn has_entry(e: Seq<MapEntry>, a: Seq<char>) -> bool {
    exists|i: int| 0 <= i < e.len() && (#[trigger] e[i]).address@ == a
}

/// The place of the entry for the address `a`.
pub open spec fn entry_index(e: Seq<MapEntry>, a: Seq<char>) -> int {
    choose|i: int| 0 <= i < e.len() && (#[trigger] e[i]).address@ == a
}

/// The hosts of the entries, by address.
pub open spec fn entries_map(e: Seq<MapEntry>) -> Map<Seq<char>, HostView> {
    Map::new(|a: Seq<char>| has_entry(e, a), |a: Seq<char>| e[entry_index(e, a)].host@)
}

/// The addresses of the entries, in order.
pub open spec fn entry_addresses(e: Seq<MapEntry>) -> Seq<Seq<char>> {
    e.map_values(|x: MapEntry| x.address@)
}

/// Putting another host in the place of one entry changes the map at that address only.
pub proof fn lemma_entry_replaced(e: Seq<MapEntry>, i: int, x: MapEntry)
    requires
        distinct_addresses(e),
        0 <= i < e.len(),
        x.address@ == e[i].address@,
    ensures
        distinct_addresses(e.update(i, x)),
        entries_map(e.update(i, x)) == entries_map(e).insert(x.address@, x.host@),
        entry_addresses(e.update(i, x)) == entry_addresses(e),
        entries_map(e).contains_key(x.address@),
        entries_map(e)[x.address@] == e[i].host@,
{
    let f = e.update(i, x);
    assert(has_entry(e, x.address@));
    assert(entry_index(e, x.address@) == i);
    assert forall|a: Seq<char>| has_entry(f, a) <==> has_entry(e, a) by {
        if has_entry(f, a) {
            let j = entry_index(f, a);
            assert(e[j].address@ == a);
        }
        if has_entry(e, a) {
            let j = entry_index(e, a);
            assert(f[j].address@ == a);
        }
    }
    assert forall|a: Seq<char>| has_entry(f, a) implies #[trigger] entries_map(f)[a] == entries_map(
        e,
    ).insert(x.address@, x.host@)[a] by {
        let j = entry_index(f, a);
        assert(f[j].address@ == a);
        if a == x.address@ {
            assert(j == i);
        } else {
            let k = entry_index(e, a);
            assert(e[k].address@ == a);
            assert(e[j].address@ == a);
            assert(j == k);
        }
    }
    assert(entries_map(f) =~= entries_map(e).insert(x.address@, x.host@));
    assert(entry_addresses(f) =~= entry_addresses(e));
}

/// An entry for a new address, put at the end, adds that address to the map.
pub proof fn lemma_entry_added(e: Seq<MapEntry>, x: MapEntry)
    requires
        distinct_addresses(e),
        !has_entry(e, x.address@),
    ensures
        distinct_addresses(e.push(x)),
        entries_map(e.push(x)) == entries_map(e).insert(x.address@, x.host@),
        entry_addresses(e.push(x)) == entry_addresses(e).push(x.address@),
{
    let f = e.push(x);
    assert forall|a: Seq<char>| has_entry(f, a) <==> (has_entry(e, a) || a == x.address@) by {
        if has_entry(f, a) {
            let j = entry_index(f, a);
            if j < e.len() {
                assert(e[j].address@ == a);
            }
        }
        if has_entry(e, a) {
            let j = entry_index(e, a);
            assert(f[j].address@ == a);
        }
        if a == x.address@ {
            assert(f[e.len() as int].address@ == a);
        }
    }
    assert forall|a: Seq<char>| has_entry(f, a) implies #[trigger] entries_map(f)[a] == entries_map(
        e,
    ).insert(x.address@, x.host@)[a] by {
        let j = entry_index(f, a);
        assert(f[j].address@ == a);
        if a == x.address@ {
            if j < e.len() {
                assert(e[j].address@ == a);
            }
        } else {
            let k = entry_index(e, a);
            assert(e[k].address@ == a);
            assert(f[k].address@ == a);
            assert(j == k);
        }
    }
    assert(entries_map(f) =~= entries_map(e).insert(x.address@, x.host@));
    assert(entry_addresses(f) =~= entry_addresses(e).push(x.address@));
}

impl View for NetworkMap {
    type V = Map<Seq<char>, HostView>;

    closed spec fn view(&self) -> Map<Seq<char>, HostView> {
        entries_map(self.entries@)
    }
}

impl NetworkMap {
    /// Whether the map is well formed: no address has two entries.
    pub closed spec fn wf(&self) -> bool {
        distinct_addresses(self.entries@)
    }

    /// The addresses of the map, in the order in which they were first reported.
    pub closed spec fn addresses(&self) -> Seq<Seq<char>> {
        entry_addresses(self.entries@)
    }

    /// The addresses of a well-formed map are those that it knows a host for, each once.
    pub proof fn lemma_addresses(&self)
        requires
            self.wf(),
        ensures
            self.addresses().no_duplicates(),
            forall|a: Seq<char>| #[trigger] self.addresses().contains(a) <==> self@.contains_key(a),
    {
        let e = self.entries@;
        assert forall|i: int, j: int|
            0 <= i < self.addresses().len() && 0 <= j < self.addresses().len() && i
                != j implies self.addresses()[i] != self.addresses()[j] by {
            if i < j {
                assert(e[i].address@ != e[j].address@);
            } else {
                assert(e[j].address@ != e[i].address@);
            }
        }
        assert forall|a: Seq<char>| #[trigger]
            self.addresses().contains(a) <==> self@.contains_key(a) by {
            if self.addresses().contains(a) {
                let i = choose|i: int|
                    0 <= i < self.addresses().len() && self.addresses()[i] == a;
                assert(e[i].address@ == a);
            }
            if self@.contains_key(a) {
                let i = entry_index(e, a);
                assert(self.addresses()[i] == a);
            }
        }
    }

    /// A map that knows no host.
    pub fn new() -> (m: Self)
        ensures
            m.wf(),
            m@ == Map::<Seq<char>, HostView>::empty(),
            m.addresses() == Seq::<Seq<char>>::empty(),
    {
        let m = NetworkMap { entries: Vec::new() };
        assert(m@ =~= Map::<Seq<char>, HostView>::empty());
        assert(m.addresses() =~= Seq::<Seq<char>>::empty());
        m
    }

    /// The number of hosts that the map knows.
    pub fn len(&self) -> (n: usize)
        ensures
            n == self.addresses().len(),
    {
        self.entries.len()
    }

    /// The entries of the map, in the order in which their addresses were first reported.
    pub fn entries(&self) -> (e: &Vec<MapEntry>)
        requires
            self.wf(),
        ensures
            entry_addresses(e@) == self.addresses(),
            entries_map(e@) == self@,
            distinct_addresses(e@),
    {
        &self.entries
    }

    /// The place of the entry for `ip`.
    fn find(&self, ip: &str) -> (r: Option<usize>)
        ensures
            match r {
                Some(i) => i < self.entries.len() && self.entries[i as int].address@ == ip@,
                None => !has_entry(self.entries@, ip@),
            },
    {
        let mut i: usize = 0;
        while i < self.entries.len()
            invariant
                i <= self.entries.len(),
                forall|j: int| 0 <= j < i ==> (#[trigger] self.entries[j]).address@ != ip@,
            decreases self.entries.len() - i,
        {
            if str_eq(self.entries[i].address.as_str(), ip) {
                return Some(i);
            }
            i += 1;
        }
        None
    }

    /// What the map knows of the host at `ip`.
    pub fn get(&self, ip: &str) -> (r: Option<&NetworkHost>)
        requires
            self.wf(),
        ensures
            match r {
                Some(host) => self@.contains_key(ip@) && self@[ip@] == host@,
                None => !self@.contains_key(ip@),
            },
    {
        match self.find(ip) {
            Some(i) => {
                proof {
                    lemma_entry_replaced(self.entries@, i as int, self.entries[i as int]);
                }
                Some(&self.entries[i].host)
            },
            None => None,
        }
    }

    /// Takes in a report on the host at `ip`: its name, if the map has none for it yet, and
    /// the TCP and UDP ports found open on it.
    pub fn report(
        &mut self,
        ip: &str,
        hostname: Option<String>,
        tcp_ports: Option<Vec<u16>>,
        udp_ports: Option<Vec<u16>>,
    )
        requires
            old(self).wf(),
        ensures
            final(self).wf(),
            final(self)@ == reported(
                old(self)@,
                ip@,
                opt_text(hostname),
                port_set(tcp_ports),
                port_set(udp_ports),
            ),
            final(self).addresses() == if old(self)@.contains_key(ip@) {
                old(self).addresses()
            } else {
                old(self).addresses().push(ip@)
            },
    {
        let place = self.find(ip);
        let ghost before = self.entries@;
        let mut entry = match place {
            Some(i) => {
                proof {
                    lemma_entry_replaced(before, i as int, before[i as int]);
                }
                self.entries.remove(i)
            },
            None => MapEntry { address: ip.to_string(), host: NetworkHost::new(None) },
        };
        let ghost known = entry.host@;
        assert(known == known_of(old(self)@, ip@));
        if !holds_name(&entry.host.hostname) && holds_name(&hostname) {
            entry.host.hostname = hostname;
        }
        match tcp_ports {
            Some(ports) => {
                let mut k: usize = 0;
                while k < ports.len()
                    invariant
                        k <= ports.len(),
                        entry.host@.tcp_ports == known.tcp_ports.union(ports@.take(k as int).to_set()),
                        entry.host.udp_ports@ == known.udp_ports,
                        opt_text(entry.host.hostname) == host_with(
                            known,
                            opt_text(hostname),
                            Set::<u16>::empty(),
                            Set::<u16>::empty(),
                        ).hostname,
                        entry.address@ == ip@,
                    decreases ports.len() - k,
                {
                    entry.host.add_tcp_port(ports[k]);
                    assert(ports@.take(k + 1) =~= ports@.take(k as int).push(ports@[k as int]));
                    assert(ports@.take(k + 1).to_set() =~= ports@.take(k as int).to_set().insert(
                        ports@[k as int],
                    )) by {
                        lemma_push_to_set(ports@.take(k as int), ports@[k as int]);
                    }
                    assert(entry.host@.tcp_ports =~= known.tcp_ports.union(
                        ports@.take(k + 1).to_set(),
                    ));
                    k += 1;
                }
                assert(ports@.take(k as int) =~= ports@);
            },
            None => {
                assert(known.tcp_ports.union(Set::<u16>::empty()) =~= known.tcp_ports);
            },
        }
        let ghost with_tcp = entry.host@;
        match udp_ports {
            Some(ports) => {
                let mut k: usize = 0;
                assert(ports@.take(0).to_set() =~= Set::<u16>::empty());
                assert(known.udp_ports.union(Set::<u16>::empty()) =~= known.udp_ports);
                while k < ports.len()
                    invariant
                        k <= ports.len(),
                        entry.host@.udp_ports == known.udp_ports.union(ports@.take(k as int).to_set()),
                        entry.host.tcp_ports@ == with_tcp.tcp_ports,
                        opt_text(entry.host.hostname) == with_tcp.hostname,
                        entry.address@ == ip@,
                    decreases ports.len() - k,
                {
                    entry.host.add_udp_port(ports[k]);
                    assert(ports@.take(k + 1) =~= ports@.take(k as int).push(ports@[k as int]));
                    assert(ports@.take(k + 1).to_set() =~= ports@.take(k as int).to_set().insert(
                        ports@[k as int],
                    )) by {
                        lemma_push_to_set(ports@.take(k as int), ports@[k as int]);
                    }
                    assert(entry.host@.udp_ports =~= known.udp_ports.union(
                        ports@.take(k + 1).to_set(),
                    ));
                    k += 1;
                }
                assert(ports@.take(k as int) =~= ports@);
            },
            None => {
                assert(known.udp_ports.union(Set::<u16>::empty()) =~= known.udp_ports);
            },
        }
        assert(entry.host@ == host_with(
            known,
            opt_text(hostname),
            port_set(tcp_ports),
            port_set(udp_ports),
        ));
        match place {
            Some(i) => {
                proof {
                    lemma_entry_replaced(before, i as int, entry);
                    assert(before.remove(i as int).insert(i as int, entry) =~= before.update(
                        i as int,
                        entry,
                    ));
                }
                self.entries.insert(i, entry);
            },
            None => {
                proof {
                    lemma_entry_added(before, entry);
                }
                self.entries.push(entry);
            },
        }
    }
}

/// The set of a sequence with one more element at its end.
pub proof fn lemma_push_to_set(s: Seq<u16>, x: u16)
    ensures
        s.push(x).to_set() == s.to_set().insert(x),
{
    assert forall|y: u16| s.push(x).to_set().contains(y) <==> s.to_set().insert(x).contains(y) by {
        if s.push(x).contains(y) {
            let i = choose|i: int| 0 <= i < s.push(x).len() && s.push(x)[i] == y;
            if i < s.len() {
                assert(s[i] == y);
            }
        }
        if s.contains(y) {
            let i = choose|i: int| 0 <= i < s.len() && s[i] == y;
            assert(s.push(x)[i] == y);
        }
        if y == x {
            assert(s.push(x)[s.len() as int] == y);
        }
    }
    assert(s.push(x).to_set() =~= s.to_set().insert(x));
}

/// Takes into `map` a report on the host at `ip`: its name, if the map has none for it
/// yet, and the TCP and UDP ports found open on it.
pub fn add_to_network_map(
    map: &mut NetworkMap,
    ip: &str,
    hostname: Option<String>,
    tcp_ports: Option<Vec<u16>>,
    udp_ports: Option<Vec<u16>>,
)
    requires
        old(map).wf(),
    ensures
        final(map).wf(),
        final(map)@ == reported(
            old(map)@,
            ip@,
            opt_text(hostname),
            port_set(tcp_ports),
            port_set(udp_ports),
        ),
        final(map).addresses() == if old(map)@.contains_key(ip@) {
            old(map).addresses()
        } else {
            old(map).addresses().push(ip@)
        },
{
    map.report(ip, hostname, tcp_ports, udp_ports);
}

/// One report on a host: its address, its name if known, and the ports found open.
pub ghost struct Report {
    pub ip: Seq<char>,
    pub hostname: Option<Seq<char>>,
    pub tcp: Set<u16>,
    pub udp: Set<u16>,
}

/// The map `m` after the reports, taken in one after the other.
pub open spec fn after_reports(m: Map<Seq<char>, HostView>, reports: Seq<Report>) -> Map<
    Seq<char>,
    HostView,
>
    decreases reports.len(),
{
    if reports.len() == 0 {
        m
    } else {
        let r = reports.last();
        reported(after_reports(m, reports.drop_last()), r.ip, r.hostname, r.tcp, r.udp)
    }
}

/// The TCP ports that some report on the host at `ip` holds.
pub open spec fn tcp_reported(reports: Seq<Report>, ip: Seq<char>) -> Set<u16> {
    Set::new(
        |p: u16|
            exists|i: int|
                0 <= i < reports.len() && (#[trigger] reports[i]).ip == ip && reports[i].tcp.contains(
                    p,
                ),
    )
}

/// The UDP ports that some report on the host at `ip` holds.
pub open spec fn udp_reported(reports: Seq<Report>, ip: Seq<char>) -> Set<u16> {
    Set::new(
        |p: u16|
            exists|i: int|
                0 <= i < reports.len() && (#[trigger] reports[i]).ip == ip && reports[i].udp.contains(
                    p,
                ),
    )
}

/// No report is lost: after any number of reports, taken in whatever order they came, the
/// open ports that the map holds for an address are those that it held before together
/// with those of all the reports on that address. The map knows a host exactly where it
/// knew one before or a report was on it, and a name that it had for a host stays.
pub proof fn lemma_reports_add_up(m: Map<Seq<char>, HostView>, reports: Seq<Report>, ip: Seq<char>)
    ensures
        known_of(after_reports(m, reports), ip).tcp_ports == known_of(m, ip).tcp_ports.union(
            tcp_reported(reports, ip),
        ),
        known_of(after_reports(m, reports), ip).udp_ports == known_of(m, ip).udp_ports.union(
            udp_reported(reports, ip),
        ),
        after_reports(m, reports).contains_key(ip) <==> (m.contains_key(ip) || exists|i: int|
            0 <= i < reports.len() && (#[trigger] reports[i]).ip == ip),
        is_name(known_of(m, ip).hostname) ==> known_of(after_reports(m, reports), ip).hostname
            == known_of(m, ip).hostname,
    decreases reports.len(),
{
    if reports.len() == 0 {
        assert(known_of(m, ip).tcp_ports.union(tcp_reported(reports, ip)) =~= known_of(
            m,
            ip,
        ).tcp_ports);
        assert(known_of(m, ip).udp_ports.union(udp_reported(reports, ip)) =~= known_of(
            m,
            ip,
        ).udp_ports);
    } else {
        let before = reports.drop_last();
        let r = reports.last();
        lemma_reports_add_up(m, before, ip);
        let mid = after_reports(m, before);
        assert(reports[reports.len() - 1] == r);
        assert forall|p: u16| #[trigger] tcp_reported(reports, ip).contains(p) <==> (tcp_reported(
            before,
            ip,
        ).contains(p) || (r.ip == ip && r.tcp.contains(p))) by {
            if tcp_reported(reports, ip).contains(p) {
                let i = choose|i: int|
                    0 <= i < reports.len() && (#[trigger] reports[i]).ip == ip
                        && reports[i].tcp.contains(p);
                if i < before.len() {
                    assert(before[i] == reports[i]);
                }
            }
            if tcp_reported(before, ip).contains(p) {
                let i = choose|i: int|
                    0 <= i < before.len() && (#[trigger] before[i]).ip == ip
                        && before[i].tcp.contains(p);
                assert(reports[i] == before[i]);
            }
        }
        assert forall|p: u16| #[trigger] udp_reported(reports, ip).contains(p) <==> (udp_reported(
            before,
            ip,
        ).contains(p) || (r.ip == ip && r.udp.contains(p))) by {
            if udp_reported(reports, ip).contains(p) {
                let i = choose|i: int|
                    0 <= i < reports.len() && (#[trigger] reports[i]).ip == ip
                        && reports[i].udp.contains(p);
                if i < before.len() {
                    assert(before[i] == reports[i]);
                }
            }
            if udp_reported(before, ip).contains(p) {
                let i = choose|i: int|
                    0 <= i < before.len() && (#[trigger] before[i]).ip == ip
                        && before[i].udp.contains(p);
                assert(reports[i] == before[i]);
            }
        }
        let end = after_reports(m, reports);
        assert(end == reported(mid, r.ip, r.hostname, r.tcp, r.udp));
        if r.ip == ip {
            assert(known_of(end, ip) == host_with(known_of(mid, ip), r.hostname, r.tcp, r.udp));
        } else {
            assert(known_of(end, ip) == known_of(mid, ip));
        }
        assert(known_of(after_reports(m, reports), ip).tcp_ports =~= known_of(
            m,
            ip,
        ).tcp_ports.union(tcp_reported(reports, ip)));
        assert(known_of(after_reports(m, reports), ip).udp_ports =~= known_of(
            m,
            ip,
        ).udp_ports.union(udp_reported(reports, ip)));
        if exists|i: int| 0 <= i < before.len() && (#[trigger] before[i]).ip == ip {
            let i = choose|i: int| 0 <= i < before.len() && (#[trigger] before[i]).ip == ip;
            assert(reports[i] == before[i]);
        }
        if exists|i: int| 0 <= i < reports.len() && (#[trigger] reports[i]).ip == ip {
            let i = choose|i: int| 0 <= i < reports.len() && (#[trigger] reports[i]).ip == ip;
            if i < before.len() {
                assert(before[i] == reports[i]);
            }
        }
    }
}

} // verus!
