//! Grouping the sightings of one scan by address.

use crate::model::{ConsolidatedService, ConsolidatedView, NetworkService, ServiceView};
use crate::network_scanner::consolidation::{
    create_consolidated_service, created, detail_lines, founded, merged_lines, seeded_lines, tagged,
    update_consolidated_service, updated, Merging,
};
use crate::text::{is_less, lemma_text_less_total, lemma_text_less_transitive, text_less, to_chars};
use vstd::prelude::*;

verus! {

/// What the sightings of `v` hold.
pub open spec fn service_views(v: Seq<NetworkService>) -> Seq<ServiceView> {
    v.map_values(|s: NetworkService| s@)
}

/// The addresses of the sightings, in the order of the sightings.
pub open spec fn address_list(sightings: Seq<ServiceView>) -> Seq<Seq<char>> {
    sightings.map_values(|s: ServiceView| s.address)
}

/// The record for `address` that the sightings give, taken in order: the first sighting
/// of the address founds it, each later one is merged into it. None where no sighting is
/// of that address.
pub open spec fn consolidated_for(sightings: Seq<ServiceView>, address: Seq<char>) -> Option<
    ConsolidatedView,
>
    decreases sightings.len(),
{
    if sightings.len() == 0 {
        None
    } else {
        let before = consolidated_for(sightings.drop_last(), address);
        let s = sightings.last();
        if s.address != address {
            before
        } else {
            match before {
                Some(c) => Some(updated(c, s)),
                None => Some(created(s)),
            }
        }
    }
}

/// Reading the details of the founding sighting changes neither name, address, port nor
/// tags.
pub proof fn lemma_seeded_lines_keep(c: ConsolidatedView, all: Seq<Seq<char>>)
    ensures
        seeded_lines(c, all).name == c.name,
        seeded_lines(c, all).address == c.address,
        seeded_lines(c, all).port == c.port,
        seeded_lines(c, all).device_type == c.device_type,
        seeded_lines(c, all).discovery_methods == c.discovery_methods,
        seeded_lines(c, all).service_types == c.service_types,
    decreases all.len(),
{
    if all.len() > 0 {
        lemma_seeded_lines_keep(c, all.drop_last());
    }
}

/// Reading the details of a later sighting changes neither name, address, port, device
/// type nor tags.
pub proof fn lemma_merged_lines_keep(m: Merging, all: Seq<Seq<char>>)
    ensures
        merged_lines(m, all).record.name == m.record.name,
        merged_lines(m, all).record.address == m.record.address,
        merged_lines(m, all).record.port == m.record.port,
        merged_lines(m, all).record.device_type == m.record.device_type,
        merged_lines(m, all).record.discovery_methods == m.record.discovery_methods,
        merged_lines(m, all).record.service_types == m.record.service_types,
    decreases all.len(),
{
    if all.len() > 0 {
        lemma_merged_lines_keep(m, all.drop_last());
    }
}

/// A record has the address of the sighting that founded it, and keeps it, with its name
/// and its representative port, when a sighting is merged into it.
pub proof fn lemma_address_is_kept(c: ConsolidatedView, s: ServiceView)
    ensures
        created(s).address == s.address,
        created(s).name == s.name,
        created(s).port == s.port,
        updated(c, s).address == c.address,
        updated(c, s).name == c.name,
        updated(c, s).port == c.port,
{
    let start = ConsolidatedView {
        name: s.name,
        address: s.address,
        port: s.port,
        hostname: None,
        device_type: Some(crate::network_scanner::consolidation::guessed_device_type(
            s.service_type,
        )),
        discovery_methods: seq![s.discovery_method],
        service_types: seq![s.service_type],
        open_ports: Map::<u16, Seq<char>>::empty(),
        uuid: None,
        location_url: None,
        server_info: None,
        friendly_description: Seq::<char>::empty(),
    };
    lemma_seeded_lines_keep(start, detail_lines(s.details));
    lemma_merged_lines_keep(
        Merging { record: tagged(c, s), details: Seq::<Seq<char>>::empty() },
        detail_lines(s.details),
    );
}

/// The record for an address has that address, and there is one exactly when a sighting
/// is of that address.
pub proof fn lemma_consolidated_for(sightings: Seq<ServiceView>, address: Seq<char>)
    ensures
        consolidated_for(sightings, address) is Some ==> consolidated_for(
            sightings,
            address,
        ).unwrap().address == address,
        consolidated_for(sightings, address) is Some <==> exists|k: int|
            0 <= k < sightings.len() && (#[trigger] sightings[k]).address == address,
    decreases sightings.len(),
{
    if sightings.len() > 0 {
        let before = sightings.drop_last();
        let s = sightings.last();
        lemma_consolidated_for(before, address);
        if s.address == address {
            match consolidated_for(before, address) {
                Some(c) => lemma_address_is_kept(c, s),
                None => lemma_address_is_kept(created(s), s),
            }
            assert(sightings[sightings.len() - 1].address == address);
        } else {
            if consolidated_for(before, address) is Some {
                let k = choose|k: int|
                    0 <= k < before.len() && (#[trigger] before[k]).address == address;
                assert(sightings[k].address == address);
            }
            if exists|k: int|
                0 <= k < sightings.len() && (#[trigger] sightings[k]).address == address {
                let k = choose|k: int|
                    0 <= k < sightings.len() && (#[trigger] sightings[k]).address == address;
                assert(before[k].address == address);
            }
        }
    }
}

/// Whether the records stand in the order of their addresses, no two with the same.
pub open spec fn ordered_by_address(v: Seq<ConsolidatedService>) -> bool {
    forall|i: int, j: int|
        0 <= i < j < v.len() ==> text_less((#[trigger] v[i])@.address, (#[trigger] v[j])@.address)
}

/// Whether `a` comes before `b` in the order of their addresses.
fn address_before(a: &ConsolidatedService, b: &ConsolidatedService) -> (r: bool)
    ensures
        r == text_less(a@.address, b@.address),
{
    let x = to_chars(a.address.as_str());
    let y = to_chars(b.address.as_str());
    is_less(x.as_slice(), y.as_slice())
}

/// The records of `v` in the order of their addresses.
fn sort_by_address(v: Vec<ConsolidatedService>) -> (out: Vec<ConsolidatedService>)
    requires
        forall|i: int, j: int|
            0 <= i < j < v.len() ==> (#[trigger] v[i])@.address != (#[trigger] v[j])@.address,
    ensures
        ordered_by_address(out@),
        out.len() == v.len(),
        forall|i: int| 0 <= i < out.len() ==> v@.contains(#[trigger] out[i]),
        forall|j: int| 0 <= j < v.len() ==> out@.contains(#[trigger] v[j]),
{
    let mut rest = v;
    let mut out: Vec<ConsolidatedService> = Vec::new();
    while rest.len() > 0
        invariant
            rest@ == v@.take(rest.len() as int),
            rest.len() <= v.len(),
            out.len() + rest.len() == v.len(),
            ordered_by_address(out@),
            forall|i: int, j: int|
                0 <= i < j < v.len() ==> (#[trigger] v[i])@.address != (#[trigger] v[j])@.address,
            forall|i: int|
                0 <= i < out.len() ==> exists|j: int|
                    rest.len() <= j < v.len() && v[j] == #[trigger] out[i],
            forall|j: int| rest.len() <= j < v.len() ==> out@.contains(#[trigger] v[j]),
        decreases rest.len(),
    {
        let ghost n = rest.len() as int;
        let c = rest.pop().unwrap();
        assert(c == v[n - 1]);
        let mut pos: usize = 0;
        while pos < out.len() && address_before(&out[pos], &c)
            invariant
                pos <= out.len(),
                forall|i: int| 0 <= i < pos ==> text_less((#[trigger] out[i])@.address, c@.address),
            decreases out.len() - pos,
        {
            pos += 1;
        }
        let ghost before = out@;
        proof {
            if pos < out.len() {
                let j = choose|j: int| n <= j < v.len() && v[j] == out[pos as int];
                assert(v[n - 1]@.address != v[j]@.address);
                lemma_text_less_total(c@.address, out[pos as int]@.address);
                assert(text_less(c@.address, before[pos as int]@.address));
                assert forall|i: int| pos <= i < before.len() implies text_less(
                    c@.address,
                    (#[trigger] before[i])@.address,
                ) by {
                    if i > pos {
                        assert(text_less(before[pos as int]@.address, before[i]@.address));
                        lemma_text_less_transitive(
                            c@.address,
                            before[pos as int]@.address,
                            before[i]@.address,
                        );
                    }
                }
            }
        }
        out.insert(pos, c);
        proof {
            assert forall|i: int, j: int| 0 <= i < j < out.len() implies text_less(
                (#[trigger] out[i])@.address,
                (#[trigger] out[j])@.address,
            ) by {
                let a = if i < pos { before[i] } else if i == pos { c } else { before[i - 1] };
                let b = if j < pos { before[j] } else if j == pos { c } else { before[j - 1] };
                assert(out[i] == a);
                assert(out[j] == b);
                if i < pos && j > pos {
                    assert(text_less(before[i]@.address, before[j - 1]@.address));
                }
            }
            assert forall|i: int| 0 <= i < out.len() implies exists|j: int|
                rest.len() <= j < v.len() && v[j] == #[trigger] out[i] by {
                if i < pos {
                    let j = choose|j: int| n <= j < v.len() && v[j] == before[i];
                    assert(v[j] == out[i]);
                } else if i == pos {
                    assert(v[n - 1] == out[i]);
                } else {
                    let j = choose|j: int| n <= j < v.len() && v[j] == before[i - 1];
                    assert(v[j] == out[i]);
                }
            }
            assert forall|j: int| rest.len() <= j < v.len() implies out@.contains(
                #[trigger] v[j],
            ) by {
                if j == n - 1 {
                    assert(out@[pos as int] == v[j]);
                } else {
                    assert(before.contains(v[j]));
                    let i = choose|i: int| 0 <= i < before.len() && before[i] == v[j];
                    if i < pos {
                        assert(out@[i] == v[j]);
                    } else {
                        assert(out@[i + 1] == v[j]);
                    }
                }
            }
        }
    }
    proof {
        assert forall|i: int| 0 <= i < out.len() implies v@.contains(#[trigger] out[i]) by {
            let j = choose|j: int| 0 <= j < v.len() && v[j] == out[i];
            assert(v@[j] == out[i]);
        }
    }
    out
}

/// The place of the record for `address` in `acc`.
fn position_of(acc: &Vec<ConsolidatedService>, address: &String) -> (r: Option<usize>)
    ensures
        match r {
            Some(j) => j < acc.len() && acc[j as int]@.address == address@,
            None => forall|j: int| 0 <= j < acc.len() ==> (#[trigger] acc[j])@.address != address@,
        },
{
    let mut j: usize = 0;
    while j < acc.len()
        invariant
            j <= acc.len(),
            forall|k: int| 0 <= k < j ==> (#[trigger] acc[k])@.address != address@,
        decreases acc.len() - j,
    {
        if acc[j].address == *address {
            return Some(j);
        }
        j += 1;
    }
    None
}

/// One record for each address among `services`, in the order of the addresses. The first
/// sighting of an address founds its record, and each later one is merged into it, in the
/// order in which they stand in `services`.
pub fn consolidate_services(services: Vec<NetworkService>) -> (out: Vec<ConsolidatedService>)
    ensures
        out.len() == address_list(service_views(services@)).to_set().len(),
        ordered_by_address(out@),
        forall|i: int|
            0 <= i < out.len() ==> consolidated_for(
                service_views(services@),
                (#[trigger] out[i])@.address,
            ) == Some(out[i]@),
        forall|i: int| 0 <= i < out.len() ==> (#[trigger] out[i])@.wf(),
        forall|k: int|
            0 <= k < services.len() ==> exists|i: int|
                0 <= i < out.len() && (#[trigger] out[i])@.address == (
                #[trigger] services[k])@.address,
{
    let ghost all = service_views(services@);
    let mut acc: Vec<ConsolidatedService> = Vec::new();
    let mut n: usize = 0;
    while n < services.len()
        invariant
            n <= services.len(),
            all == service_views(services@),
            forall|j: int|
                0 <= j < acc.len() ==> consolidated_for(
                    all.take(n as int),
                    (#[trigger] acc[j])@.address,
                ) == Some(acc[j]@),
            forall|i: int, j: int|
                0 <= i < j < acc.len() ==> (#[trigger] acc[i])@.address != (
                #[trigger] acc[j])@.address,
            forall|j: int| 0 <= j < acc.len() ==> (#[trigger] acc[j])@.wf(),
            forall|k: int|
                0 <= k < n ==> exists|j: int|
                    0 <= j < acc.len() && (#[trigger] acc[j])@.address == (
                    #[trigger] all[k]).address,
        decreases services.len() - n,
    {
        let service = &services[n];
        let ghost s = service@;
        let ghost seen = all.take(n as int);
        let ghost now = all.take(n + 1);
        let ghost old_acc = acc@;
        assert(now.drop_last() =~= seen);
        assert(now.last() == s);
        match position_of(&acc, &service.address) {
            Some(j) => {
                let mut record = acc.remove(j);
                update_consolidated_service(&mut record, service);
                proof {
                    lemma_address_is_kept(old_acc[j as int]@, s);
                }
                acc.insert(j, record);
                assert(acc@.len() == old_acc.len());
                assert forall|i: int| 0 <= i < acc.len() && i != j implies acc[i] == old_acc[i] by {}
            },
            None => {
                proof {
                    lemma_consolidated_for(seen, s.address);
                    if consolidated_for(seen, s.address) is Some {
                        let k = choose|k: int|
                            0 <= k < seen.len() && (#[trigger] seen[k]).address == s.address;
                        assert(all[k].address == s.address);
                    }
                    lemma_address_is_kept(created(s), s);
                }
                acc.push(create_consolidated_service(service));
            },
        }
        proof {
            assert forall|k: int| 0 <= k < n + 1 implies exists|j: int|
                0 <= j < acc.len() && (#[trigger] acc[j])@.address == (#[trigger] all[k]).address by {
                if k < n {
                    let j = choose|j: int|
                        0 <= j < old_acc.len() && (#[trigger] old_acc[j])@.address
                            == all[k].address;
                    assert(acc[j]@.address == all[k].address);
                } else {
                    match position_of_spec(old_acc, s.address) {
                        Some(j) => {
                            assert(acc[j]@.address == all[k].address);
                        },
                        None => {
                            assert(acc[acc.len() - 1]@.address == all[k].address);
                        },
                    }
                }
            }
        }
        n += 1;
    }
    assert(all.take(n as int) =~= all);
    let out = sort_by_address(acc);
    proof {
        assert forall|i: int| 0 <= i < out.len() implies consolidated_for(
            all,
            (#[trigger] out[i])@.address,
        ) == Some(out[i]@) by {
            assert(acc@.contains(out[i]));
            let j = choose|j: int| 0 <= j < acc.len() && acc[j] == out[i];
            assert(consolidated_for(all, acc[j]@.address) == Some(acc[j]@));
        }
        assert forall|k: int| 0 <= k < services.len() implies exists|i: int|
            0 <= i < out.len() && (#[trigger] out[i])@.address == (#[trigger] services[k])@.address by {
            let j = choose|j: int|
                0 <= j < acc.len() && (#[trigger] acc[j])@.address == all[k].address;
            assert(out@.contains(acc[j]));
            let i = choose|i: int| 0 <= i < out.len() && out[i] == acc[j];
            assert(out[i]@.address == services[k]@.address);
        }
        assert forall|i: int| 0 <= i < out.len() implies (#[trigger] out[i])@.wf() by {
            assert(acc@.contains(out[i]));
        }
        lemma_count_of_addresses(out@, all);
    }
    out
}

/// The place of the first record of `acc` that has `address`.
pub open spec fn position_of_spec(acc: Seq<ConsolidatedService>, address: Seq<char>) -> Option<
    int,
> {
    if exists|j: int| 0 <= j < acc.len() && (#[trigger] acc[j])@.address == address {
        Some(choose|j: int| 0 <= j < acc.len() && (#[trigger] acc[j])@.address == address)
    } else {
        None
    }
}

/// Records in the order of their addresses, each for an address among the sightings and
/// one for each such address, are as many as the sightings have different addresses.
pub proof fn lemma_count_of_addresses(out: Seq<ConsolidatedService>, all: Seq<ServiceView>)
    requires
        ordered_by_address(out),
        forall|i: int|
            0 <= i < out.len() ==> consolidated_for(all, (#[trigger] out[i])@.address) is Some,
        forall|k: int|
            0 <= k < all.len() ==> exists|i: int|
                0 <= i < out.len() && (#[trigger] out[i])@.address == (#[trigger] all[k]).address,
    ensures
        out.len() == address_list(all).to_set().len(),
{
    let found = out.map_values(|c: ConsolidatedService| c@.address);
    assert forall|i: int, j: int| 0 <= i < j < found.len() implies found[i] != found[j] by {
        assert(text_less(out[i]@.address, out[j]@.address));
        lemma_text_less_total(found[i], found[j]);
    }
    assert(found.no_duplicates());
    found.unique_seq_to_set();
    assert forall|a: Seq<char>| found.to_set().contains(a) <==> address_list(all).to_set().contains(
        a,
    ) by {
        if found.to_set().contains(a) {
            let i = choose|i: int| 0 <= i < found.len() && found[i] == a;
            lemma_consolidated_for(all, out[i]@.address);
            let k = choose|k: int| 0 <= k < all.len() && (#[trigger] all[k]).address == a;
            assert(address_list(all)[k] == a);
        }
        if address_list(all).to_set().contains(a) {
            let k = choose|k: int| 0 <= k < address_list(all).len() && address_list(all)[k] == a;
            assert(all[k].address == a);
            let i = choose|i: int|
                0 <= i < out.len() && (#[trigger] out[i])@.address == all[k].address;
            assert(found[i] == a);
        }
    }
    assert(found.to_set() =~= address_list(all).to_set());
}

} // verus!
