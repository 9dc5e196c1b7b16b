//! What the scans have found so far: every sighting, one record per device, and what is
//! known of each host.

use crate::model::{
    opt_text, ConsolidatedService, ConsolidatedView, NetworkService, ServiceView,
};
use crate::network_scanner::grouping::{consolidate_services, ordered_by_address, service_views};
use crate::network_scanner::host_scan::{
    record_scanned_host, seed_host, with_candidate, with_scanned_host, Candidate, ScannedHost,
};
use crate::network_scanner::mdns::{record_mdns_host, with_mdns_host, ResolvedRecord};
use crate::network_scanner::upnp::{record_upnp_host, with_upnp_host};
use crate::network_scanner::network_map::{
    add_to_network_map, port_set, reported, HostView, NetworkMap,
};
use crate::text::{decimal, push_decimal, str_eq, to_chars, to_text};
use vstd::prelude::*;

verus! {

/// Whether two optional texts hold the same.
fn same_opt(a: &Option<String>, b: &Option<String>) -> (r: bool)
    ensures
        r == (opt_text(*a) == opt_text(*b)),
{
    match a {
        Some(x) => match b {
            Some(y) => str_eq(x.as_str(), y.as_str()),
            None => false,
        },
        None => b.is_none(),
    }
}

/// Whether two sightings hold the same.
pub fn same_service(a: &NetworkService, b: &NetworkService) -> (r: bool)
    ensures
        r == (a@ == b@),
{
    str_eq(a.name.as_str(), b.name.as_str()) && str_eq(
        a.service_type.as_str(),
        b.service_type.as_str(),
    ) && str_eq(a.address.as_str(), b.address.as_str()) && a.port == b.port && str_eq(
        a.discovery_method.as_str(),
        b.discovery_method.as_str(),
    ) && same_opt(&a.details, &b.details)
}

/// The sightings `have`, and behind them those of `new` that are not among the sightings
/// before them.
pub open spec fn with_new(have: Seq<ServiceView>, new: Seq<ServiceView>) -> Seq<ServiceView>
    decreases new.len(),
{
    if new.len() == 0 {
        have
    } else {
        let before = with_new(have, new.drop_last());
        if before.contains(new.last()) {
            before
        } else {
            before.push(new.last())
        }
    }
}

/// The key under which a record is kept: its address, a colon, and its representative
/// port, or 0 where it has none.
pub open spec fn record_key(c: ConsolidatedView) -> Seq<char> {
    c.address + seq![':'] + decimal(
        match c.port {
            Some(p) => p as nat,
            None => 0,
        },
    )
}

/// The records `have`, each of `new` put under its key in place of what was there.
pub open spec fn with_records(
    have: Map<Seq<char>, ConsolidatedView>,
    new: Seq<ConsolidatedView>,
) -> Map<Seq<char>, ConsolidatedView>
    decreases new.len(),
{
    if new.len() == 0 {
        have
    } else {
        with_records(have, new.drop_last()).insert(record_key(new.last()), new.last())
    }
}

/// What the records hold.
pub open spec fn record_views(v: Seq<ConsolidatedService>) -> Seq<ConsolidatedView> {
    v.map_values(|c: ConsolidatedService| c@)
}

/// The records of the entries by their keys; of two entries with one key the later counts.
pub open spec fn keyed(entries: Seq<(String, ConsolidatedService)>) -> Map<
    Seq<char>,
    ConsolidatedView,
>
    decreases entries.len(),
{
    if entries.len() == 0 {
        Map::<Seq<char>, ConsolidatedView>::empty()
    } else {
        keyed(entries.drop_last()).insert(entries.last().0@, entries.last().1@)
    }
}

/// Whether no two of the entries have the same key.
pub open spec fn distinct_keys(entries: Seq<(String, ConsolidatedService)>) -> bool {
    forall|i: int, j: int|
        0 <= i < j < entries.len() ==> (#[trigger] entries[i]).0@ != (#[trigger] entries[j]).0@
}

/// Whether each entry stands under the key of its record.
pub open spec fn keys_fit(entries: Seq<(String, ConsolidatedService)>) -> bool {
    forall|i: int| 0 <= i < entries.len() ==> (#[trigger] entries[i]).0@ == record_key(entries[i].1@)
}

/// The keys of the entries are the keys of their map.
pub proof fn lemma_keyed_keys(entries: Seq<(String, ConsolidatedService)>, key: Seq<char>)
    ensures
        keyed(entries).contains_key(key) <==> exists|i: int|
            0 <= i < entries.len() && (#[trigger] entries[i]).0@ == key,
    decreases entries.len(),
{
    if entries.len() > 0 {
        let before = entries.drop_last();
        lemma_keyed_keys(before, key);
        if keyed(entries).contains_key(key) {
            if entries.last().0@ == key {
                assert(entries[entries.len() - 1].0@ == key);
            } else {
                let i = choose|i: int| 0 <= i < before.len() && (#[trigger] before[i]).0@ == key;
                assert(entries[i].0@ == key);
            }
        }
        if exists|i: int| 0 <= i < entries.len() && (#[trigger] entries[i]).0@ == key {
            let i = choose|i: int| 0 <= i < entries.len() && (#[trigger] entries[i]).0@ == key;
            if i < before.len() {
                assert(before[i].0@ == key);
            }
        }
    }
}

/// Putting another record in the place of an entry, under the same key, changes the map
/// at that key only.
pub proof fn lemma_keyed_replaced(
    entries: Seq<(String, ConsolidatedService)>,
    i: int,
    x: (String, ConsolidatedService),
)
    requires
        distinct_keys(entries),
        0 <= i < entries.len(),
        x.0@ == entries[i].0@,
    ensures
        distinct_keys(entries.update(i, x)),
        keyed(entries.update(i, x)) == keyed(entries).insert(x.0@, x.1@),
    decreases entries.len(),
{
    let after = entries.update(i, x);
    let last = entries.len() - 1;
    if i == last {
        assert(after.drop_last() =~= entries.drop_last());
        assert(keyed(after) =~= keyed(entries).insert(x.0@, x.1@));
    } else {
        lemma_keyed_replaced(entries.drop_last(), i, x);
        assert(after.drop_last() =~= entries.drop_last().update(i, x));
        assert(after.last() == entries.last());
        assert(entries[i].0@ != entries[last].0@);
        assert(keyed(after) =~= keyed(entries).insert(x.0@, x.1@));
    }
}

/// What the scans have found so far.
#[derive(Debug)]
pub struct DiscoveryStore {
    discovered: Vec<NetworkService>,
    consolidated: Vec<(String, ConsolidatedService)>,
    network_map: NetworkMap,
}

impl DiscoveryStore {
    /// Whether the store is well formed: no sighting is kept twice, no key has two
    /// records, and the map of the hosts is well formed.
    pub closed spec fn wf(&self) -> bool {
        &&& service_views(self.discovered@).no_duplicates()
        &&& distinct_keys(self.consolidated@)
        &&& keys_fit(self.consolidated@)
        &&& self.network_map.wf()
    }

    /// The sightings that the store keeps, in the order in which they came.
    pub closed spec fn sightings(&self) -> Seq<ServiceView> {
        service_views(self.discovered@)
    }

    /// The records that the store keeps, by their keys.
    pub closed spec fn records(&self) -> Map<Seq<char>, ConsolidatedView> {
        keyed(self.consolidated@)
    }

    /// What the store knows of each host.
    pub closed spec fn hosts(&self) -> NetworkMap {
        self.network_map
    }

    /// A well-formed store has a well-formed map of the hosts.
    pub proof fn lemma_hosts_wf(&self)
        requires
            self.wf(),
        ensures
            self.hosts().wf(),
    {
    }

    /// What the store knows of each host.
    pub fn network_map(&self) -> (m: &NetworkMap)
        ensures
            *m == self.hosts(),
    {
        &self.network_map
    }

    /// Takes in a report on the host at `ip`: its name, if none is known for it yet, and
    /// the TCP and UDP ports found open on it.
    pub fn report_host(
        &mut self,
        ip: &str,
        hostname: Option<String>,
        tcp_ports: Option<Vec<u16>>,
        udp_ports: Option<Vec<u16>>,
    )
        requires
            old(self).wf(),
        ensures
            final(self).wf(),
            final(self).hosts()@ == reported(
                old(self).hosts()@,
                ip@,
                opt_text(hostname),
                port_set(tcp_ports),
                port_set(udp_ports),
            ),
            final(self).sightings() == old(self).sightings(),
            final(self).records() == old(self).records(),
    {
        add_to_network_map(&mut self.network_map, ip, hostname, tcp_ports, udp_ports);
    }

    /// Takes in the record `r`, resolved when the service type `query` was browsed for.
    pub fn report_mdns(&mut self, query: &str, r: &ResolvedRecord)
        requires
            old(self).wf(),
        ensures
            final(self).wf(),
            final(self).hosts()@ == with_mdns_host(old(self).hosts()@, query@, *r),
            final(self).sightings() == old(self).sightings(),
            final(self).records() == old(self).records(),
    {
        record_mdns_host(&mut self.network_map, query, r);
    }

    /// Takes in the sighting `service` of a self-describing device.
    pub fn report_upnp(&mut self, service: &NetworkService)
        requires
            old(self).wf(),
        ensures
            final(self).wf(),
            final(self).hosts()@ == with_upnp_host(old(self).hosts()@, service@),
            final(self).sightings() == old(self).sightings(),
            final(self).records() == old(self).records(),
    {
        record_upnp_host(&mut self.network_map, service);
    }

    /// Takes in a host to try before it is scanned; returns whether its name still has to
    /// be looked up.
    pub fn seed_host(&mut self, candidate: &Candidate) -> (lookup: bool)
        requires
            old(self).wf(),
        ensures
            final(self).wf(),
            final(self).hosts()@ == with_candidate(
                old(self).hosts()@,
                (candidate.0@, opt_text(candidate.1)),
            ),
            final(self).sightings() == old(self).sightings(),
            final(self).records() == old(self).records(),
            lookup == (candidate.1 is None),
    {
        seed_host(&mut self.network_map, candidate)
    }

    /// Takes in the outcome of the scan of one host.
    pub fn report_scanned(&mut self, host: &ScannedHost)
        requires
            old(self).wf(),
        ensures
            final(self).wf(),
            final(self).hosts()@ == with_scanned_host(old(self).hosts()@, *host),
            final(self).sightings() == old(self).sightings(),
            final(self).records() == old(self).records(),
    {
        record_scanned_host(&mut self.network_map, host);
    }

    /// A store that keeps nothing.
    pub fn new() -> (s: Self)
        ensures
            s.wf(),
            s.sightings() == Seq::<ServiceView>::empty(),
            s.records() == Map::<Seq<char>, ConsolidatedView>::empty(),
            s.hosts().wf(),
            s.hosts()@ == Map::<Seq<char>, HostView>::empty(),
            s.hosts().addresses() == Seq::<Seq<char>>::empty(),
    {
        let s = DiscoveryStore {
            discovered: Vec::new(),
            consolidated: Vec::new(),
            network_map: NetworkMap::new(),
        };
        assert(service_views(s.discovered@) =~= Seq::<ServiceView>::empty());
        s
    }

    /// Whether the store keeps the sighting `service`.
    fn keeps(&self, service: &NetworkService) -> (r: bool)
        ensures
            r == service_views(self.discovered@).contains(service@),
    {
        let mut i: usize = 0;
        while i < self.discovered.len()
            invariant
                i <= self.discovered.len(),
                forall|j: int| 0 <= j < i ==> service_views(self.discovered@)[j] != service@,
            decreases self.discovered.len() - i,
        {
            assert(service_views(self.discovered@)[i as int] == self.discovered[i as int]@);
            if same_service(&self.discovered[i], service) {
                return true;
            }
            i += 1;
        }
        false
    }

    /// Keeps the sightings `services`, each unless the store keeps it already.
    pub fn add_sightings(&mut self, services: &Vec<NetworkService>)
        requires
            old(self).wf(),
        ensures
            final(self).wf(),
            final(self).sightings() == with_new(old(self).sightings(), service_views(services@)),
            final(self).records() == old(self).records(),
            final(self).hosts() == old(self).hosts(),
    {
        let ghost new = service_views(services@);
        let mut i: usize = 0;
        assert(new.take(0) =~= Seq::<ServiceView>::empty());
        while i < services.len()
            invariant
                i <= services.len(),
                new == service_views(services@),
                self.wf(),
                self.sightings() == with_new(old(self).sightings(), new.take(i as int)),
                self.consolidated == old(self).consolidated,
                self.network_map == old(self).network_map,
            decreases services.len() - i,
        {
            assert(new.take(i + 1).drop_last() =~= new.take(i as int));
            assert(new.take(i + 1).last() == services[i as int]@);
            if !self.keeps(&services[i]) {
                let ghost before = service_views(self.discovered@);
                let s = services[i].clone();
                let ghost v = s@;
                self.discovered.push(s);
                assert(service_views(self.discovered@) =~= before.push(v));
            }
            i += 1;
        }
        assert(new.take(i as int) =~= new);
    }

    /// The key under which `c` is kept.
    fn key_of(c: &ConsolidatedService) -> (key: String)
        ensures
            key@ == record_key(c@),
    {
        let mut text = to_chars(c.address.as_str());
        text.push(':');
        let port: u64 = match c.port {
            Some(p) => p as u64,
            None => 0,
        };
        push_decimal(&mut text, port);
        to_text(text.as_slice())
    }

    /// Keeps the record `c` under its key, in place of what was kept under that key.
    pub fn put_record(&mut self, c: ConsolidatedService)
        requires
            old(self).wf(),
        ensures
            final(self).wf(),
            final(self).records() == old(self).records().insert(record_key(c@), c@),
            final(self).sightings() == old(self).sightings(),
            final(self).hosts() == old(self).hosts(),
    {
        let key = Self::key_of(&c);
        let ghost before = self.consolidated@;
        let entry = (key, c);
        match self.find_key(entry.0.as_str()) {
            Some(i) => {
                proof {
                    lemma_keyed_replaced(before, i as int, entry);
                    assert(before.remove(i as int).insert(i as int, entry) =~= before.update(
                        i as int,
                        entry,
                    ));
                }
                self.consolidated.remove(i);
                self.consolidated.insert(i, entry);
            },
            None => {
                self.consolidated.push(entry);
                assert(self.consolidated@.drop_last() =~= before);
            },
        }
    }

    /// The place of the entry under `key`.
    fn find_key(&self, key: &str) -> (r: Option<usize>)
        ensures
            match r {
                Some(i) => i < self.consolidated.len() && self.consolidated[i as int].0@ == key@,
                None => forall|j: int|
                    0 <= j < self.consolidated.len() ==> (#[trigger] self.consolidated[j]).0@
                        != key@,
            },
    {
        let mut i: usize = 0;
        while i < self.consolidated.len()
            invariant
                i <= self.consolidated.len(),
                forall|j: int| 0 <= j < i ==> (#[trigger] self.consolidated[j]).0@ != key@,
            decreases self.consolidated.len() - i,
        {
            if str_eq(self.consolidated[i].0.as_str(), key) {
                return Some(i);
            }
            i += 1;
        }
        None
    }

    /// Keeps the records `records`, each under its key.
    pub fn put_records(&mut self, records: &Vec<ConsolidatedService>)
        requires
            old(self).wf(),
        ensures
            final(self).wf(),
            final(self).records() == with_records(old(self).records(), record_views(records@)),
            final(self).sightings() == old(self).sightings(),
            final(self).hosts() == old(self).hosts(),
    {
        let ghost new = record_views(records@);
        let mut i: usize = 0;
        assert(new.take(0) =~= Seq::<ConsolidatedView>::empty());
        while i < records.len()
            invariant
                i <= records.len(),
                new == record_views(records@),
                self.wf(),
                self.records() == with_records(old(self).records(), new.take(i as int)),
                self.sightings() == old(self).sightings(),
                self.hosts() == old(self).hosts(),
            decreases records.len() - i,
        {
            assert(new.take(i + 1).drop_last() =~= new.take(i as int));
            assert(new.take(i + 1).last() == records[i as int]@);
            self.put_record(records[i].clone());
            i += 1;
        }
        assert(new.take(i as int) =~= new);
    }

    /// Takes in the sightings of one scan: keeps them, consolidates them, keeps the
    /// records under their keys, and returns the records in the order of their addresses.
    /// What the store kept before stays, but for records under the same keys.
    pub fn record_scan(&mut self, services: Vec<NetworkService>) -> (out: Vec<ConsolidatedService>)
        requires
            old(self).wf(),
        ensures
            final(self).wf(),
            final(self).sightings() == with_new(old(self).sightings(), service_views(services@)),
            final(self).records() == with_records(old(self).records(), record_views(out@)),
            final(self).hosts() == old(self).hosts(),
            out.len() == crate::network_scanner::grouping::address_list(
                service_views(services@),
            ).to_set().len(),
            ordered_by_address(out@),
            forall|i: int|
                0 <= i < out.len() ==> crate::network_scanner::grouping::consolidated_for(
                    service_views(services@),
                    (#[trigger] out[i])@.address,
                ) == Some(out[i]@),
    {
        self.add_sightings(&services);
        let out = consolidate_services(services);
        self.put_records(&out);
        out
    }

    /// The sightings that the store keeps, in the order in which they came.
    pub fn get_discovered_services(&self) -> (out: Vec<NetworkService>)
        ensures
            service_views(out@) == self.sightings(),
    {
        let mut out: Vec<NetworkService> = Vec::new();
        let mut i: usize = 0;
        while i < self.discovered.len()
            invariant
                i <= self.discovered.len(),
                out.len() == i,
                forall|j: int| 0 <= j < i ==> out[j]@ == self.discovered[j]@,
            decreases self.discovered.len() - i,
        {
            out.push(self.discovered[i].clone());
            i += 1;
        }
        assert(service_views(out@) =~= service_views(self.discovered@));
        out
    }

    /// The records that the store keeps, one for each key.
    pub fn get_consolidated_services(&self) -> (out: Vec<ConsolidatedService>)
        requires
            self.wf(),
        ensures
            forall|i: int|
                0 <= i < out.len() ==> self.records().contains_key(
                    record_key((#[trigger] out[i])@),
                ) && self.records()[record_key(out[i]@)] == out[i]@,
            forall|i: int, j: int|
                0 <= i < j < out.len() ==> record_key((#[trigger] out[i])@) != record_key(
                    (#[trigger] out[j])@,
                ),
            forall|key: Seq<char>| #[trigger]
                self.records().contains_key(key) ==> exists|i: int|
                    0 <= i < out.len() && record_key((#[trigger] out[i])@) == key,
    {
        let mut out: Vec<ConsolidatedService> = Vec::new();
        let mut i: usize = 0;
        while i < self.consolidated.len()
            invariant
                i <= self.consolidated.len(),
                out.len() == i,
                forall|j: int| 0 <= j < i ==> (#[trigger] out[j])@ == self.consolidated[j].1@,
            decreases self.consolidated.len() - i,
        {
            out.push(self.consolidated[i].1.clone());
            i += 1;
        }
        proof {
            let e = self.consolidated@;
            assert forall|i: int| 0 <= i < out.len() implies self.records().contains_key(
                record_key((#[trigger] out[i])@),
            ) && self.records()[record_key(out[i]@)] == out[i]@ by {
                lemma_keyed_replaced(e, i, e[i]);
                assert(e.update(i, e[i]) =~= e);
                assert(e[i].0@ == record_key(e[i].1@));
            }
            assert forall|i: int, j: int| 0 <= i < j < out.len() implies record_key(
                (#[trigger] out[i])@,
            ) != record_key((#[trigger] out[j])@) by {
                assert(e[i].0@ == record_key(e[i].1@));
                assert(e[j].0@ == record_key(e[j].1@));
            }
            assert forall|key: Seq<char>| #[trigger]
                self.records().contains_key(key) implies exists|i: int|
                0 <= i < out.len() && record_key((#[trigger] out[i])@) == key by {
                lemma_keyed_keys(e, key);
                let i = choose|i: int| 0 <= i < e.len() && (#[trigger] e[i]).0@ == key;
                assert(e[i].0@ == record_key(e[i].1@));
                assert(record_key(out[i]@) == key);
            }
        }
        out
    }
}

/// Keeping new sightings takes none away: those kept before stay in their places, and
/// each new one is kept afterwards.
pub proof fn lemma_with_new_keeps(have: Seq<ServiceView>, new: Seq<ServiceView>)
    ensures
        have.is_prefix_of(with_new(have, new)),
        forall|i: int| 0 <= i < new.len() ==> with_new(have, new).contains(#[trigger] new[i]),
        have.no_duplicates() ==> with_new(have, new).no_duplicates(),
    decreases new.len(),
{
    if new.len() > 0 {
        let before = with_new(have, new.drop_last());
        lemma_with_new_keeps(have, new.drop_last());
        let now = with_new(have, new);
        assert forall|i: int| 0 <= i < new.len() implies now.contains(#[trigger] new[i]) by {
            if i < new.len() - 1 {
                assert(new.drop_last()[i] == new[i]);
                assert(before.contains(new[i]));
                let j = choose|j: int| 0 <= j < before.len() && before[j] == new[i];
                assert(now[j] == new[i]);
            } else if before.contains(new.last()) {
            } else {
                assert(now[before.len() as int] == new[i]);
            }
        }
    }
}

/// Keeping new records takes no key away, and each new record stands under its key unless
/// a later one of them has the same key.
pub proof fn lemma_with_records_keeps(have: Map<Seq<char>, ConsolidatedView>, new: Seq<ConsolidatedView>)
    ensures
        forall|key: Seq<char>| #[trigger]
            have.contains_key(key) ==> with_records(have, new).contains_key(key),
        forall|i: int|
            0 <= i < new.len() ==> with_records(have, new).contains_key(
                record_key(#[trigger] new[i]),
            ),
    decreases new.len(),
{
    if new.len() > 0 {
        lemma_with_records_keeps(have, new.drop_last());
        assert forall|i: int| 0 <= i < new.len() implies with_records(have, new).contains_key(
            record_key(#[trigger] new[i]),
        ) by {
            if i < new.len() - 1 {
                assert(new.drop_last()[i] == new[i]);
            }
        }
    }
}

} // verus!
