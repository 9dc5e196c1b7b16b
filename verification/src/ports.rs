//! Sets of port numbers, listed in ascending order.

use std::collections::{HashMap, HashSet};
use vstd::prelude::*;

verus! {

/// Whether each element of `s` is smaller than the one after it.
pub open spec fn strictly_ascending(s: Seq<u16>) -> bool {
    forall|i: int, j: int| 0 <= i < j < s.len() ==> s[i] < s[j]
}

/// The ports below `n` that are in `ports`, in ascending order.
pub open spec fn ports_below(ports: Set<u16>, n: nat) -> Seq<u16>
    decreases n,
{
    if n == 0 {
        Seq::<u16>::empty()
    } else {
        let rest = ports_below(ports, (n - 1) as nat);
        if ports.contains((n - 1) as u16) {
            rest.push((n - 1) as u16)
        } else {
            rest
        }
    }
}

/// The ports that are in `ports`, in ascending order.
pub open spec fn ascending(ports: Set<u16>) -> Seq<u16> {
    ports_below(ports, 0x10000)
}

/// A strictly ascending sequence that holds exactly the ports of `ports` below `n` is
/// `ports_below(ports, n)`.
pub proof fn lemma_ascending_is_ports_below(a: Seq<u16>, ports: Set<u16>, n: nat)
    requires
        n <= 0x10000,
        strictly_ascending(a),
        forall|p: u16| #[trigger] a.contains(p) <==> (ports.contains(p) && p < n),
    ensures
        a == ports_below(ports, n),
    decreases n,
{
    if n == 0 {
        if a.len() > 0 {
            assert(a.contains(a[0]));
        }
        assert(a =~= Seq::<u16>::empty());
    } else {
        let q = (n - 1) as u16;
        assert forall|i: int| 0 <= i < a.len() implies a[i] <= q by {
            assert(a.contains(a[i]));
        }
        if ports.contains(q) {
            assert(a.contains(q));
            let i = choose|i: int| 0 <= i < a.len() && a[i] == q;
            if i < a.len() - 1 {
                assert(a[i] < a[a.len() - 1]);
                assert(a[a.len() - 1] <= q);
            }
            let b = a.drop_last();
            assert forall|p: u16| b.contains(p) <==> (ports.contains(p) && p < n - 1) by {
                if b.contains(p) {
                    let j = choose|j: int| 0 <= j < b.len() && b[j] == p;
                    assert(a[j] == p);
                    assert(a.contains(p));
                    assert(a[j] < a[a.len() - 1]);
                }
                if ports.contains(p) && p < n - 1 {
                    assert(a.contains(p));
                    let j = choose|j: int| 0 <= j < a.len() && a[j] == p;
                    assert(j < a.len() - 1);
                    assert(b[j] == p);
                }
            }
            lemma_ascending_is_ports_below(b, ports, (n - 1) as nat);
            assert(a =~= b.push(q));
        } else {
            assert forall|p: u16| a.contains(p) <==> (ports.contains(p) && p < n - 1) by {
                if a.contains(p) {
                    assert(p != q);
                }
            }
            lemma_ascending_is_ports_below(a, ports, (n - 1) as nat);
        }
    }
}

/// Puts `port` into the ascending vector `out`, unless it is there already.
fn insert_ascending(out: &mut Vec<u16>, port: u16)
    requires
        strictly_ascending(old(out)@),
    ensures
        strictly_ascending(final(out)@),
        forall|p: u16| #[trigger] final(out)@.contains(p) <==> (old(out)@.contains(p) || p == port),
{
    let mut i: usize = 0;
    while i < out.len() && out[i] < port
        invariant
            i <= out.len(),
            out@ == old(out)@,
            forall|j: int| 0 <= j < i ==> out[j] < port,
        decreases out.len() - i,
    {
        i += 1;
    }
    if i < out.len() && out[i] == port {
        assert(out@.contains(port));
        return ;
    }
    let ghost before = out@;
    out.insert(i, port);
    assert forall|p: u16| #[trigger] out@.contains(p) <==> (before.contains(p) || p == port) by {
        if out@.contains(p) {
            let j = choose|j: int| 0 <= j < out@.len() && out@[j] == p;
            if j < i {
                assert(before[j] == p);
            } else if j > i {
                assert(before[j - 1] == p);
            }
        }
        if before.contains(p) {
            let j = choose|j: int| 0 <= j < before.len() && before[j] == p;
            if j < i {
                assert(out@[j] == p);
            } else {
                assert(out@[j + 1] == p);
            }
        }
        if p == port {
            assert(out@[i as int] == p);
        }
    }
}

/// The ports that have a label in `m`, in ascending order.
pub fn sorted_ports<V>(m: &HashMap<u16, V>) -> (out: Vec<u16>)
    ensures
        out@ == ascending(m@.dom()),
        forall|i: int| 0 <= i < out.len() ==> m@.contains_key(#[trigger] out[i]),
{
    let mut out: Vec<u16> = Vec::new();
    for e in it: m.iter()
        invariant
            forall|i: int|
                0 <= i < it.seq().len() ==> m@.contains_key(*(#[trigger] it.seq()[i]).0),
            strictly_ascending(out@),
            forall|p: u16| out@.contains(p) ==> m@.contains_key(p),
            forall|k: u16|
                m@.contains_key(k) ==> out@.contains(k) || exists|i: int|
                    it.index() <= i < it.seq().len() && *(#[trigger] it.seq()[i]).0 == k,
    {
        let (k, v) = e;
        insert_ascending(&mut out, *k);
    }
    proof {
        assert forall|p: u16| #[trigger] out@.contains(p) <==> (m@.dom().contains(p) && p
            < 0x10000) by {}
        lemma_ascending_is_ports_below(out@, m@.dom(), 0x10000);
        assert forall|i: int| 0 <= i < out.len() implies m@.contains_key(#[trigger] out[i]) by {
            assert(out@.contains(out[i]));
        }
    }
    out
}

/// The ports of `s`, in ascending order.
pub fn sorted_port_set(s: &HashSet<u16>) -> (out: Vec<u16>)
    ensures
        out@ == ascending(s@),
{
    let mut out: Vec<u16> = Vec::new();
    for k in it: s.iter()
        invariant
            it.seq().unref().to_set() == s@,
            strictly_ascending(out@),
            forall|p: u16| out@.contains(p) ==> s@.contains(p),
            forall|i: int| 0 <= i < it.index() ==> out@.contains(#[trigger] it.seq().unref()[i]),
    {
        assert(it.seq().unref()[it.index()] == *k);
        assert(it.seq().unref().contains(*k));
        insert_ascending(&mut out, *k);
    }
    proof {
        lemma_ascending_is_ports_below(out@, s@, 0x10000);
    }
    out
}

/// `ports_below(ports, n)` is strictly ascending and holds exactly the ports of `ports`
/// below `n`.
pub proof fn lemma_ports_below(ports: Set<u16>, n: nat)
    requires
        n <= 0x10000,
    ensures
        strictly_ascending(ports_below(ports, n)),
        forall|p: u16| #[trigger] ports_below(ports, n).contains(p) <==> (ports.contains(p) && p < n),
    decreases n,
{
    if n > 0 {
        let rest = ports_below(ports, (n - 1) as nat);
        lemma_ports_below(ports, (n - 1) as nat);
        let q = (n - 1) as u16;
        let now = ports_below(ports, n);
        assert forall|i: int| 0 <= i < rest.len() implies rest[i] < q by {
            assert(rest.contains(rest[i]));
        }
        assert forall|p: u16| #[trigger] now.contains(p) <==> (ports.contains(p) && p < n) by {
            if now.contains(p) {
                let i = choose|i: int| 0 <= i < now.len() && now[i] == p;
                if i < rest.len() {
                    assert(rest.contains(p));
                }
            }
            if ports.contains(p) && p < n {
                if p == q {
                    assert(now[rest.len() as int] == p);
                } else {
                    assert(rest.contains(p));
                    let i = choose|i: int| 0 <= i < rest.len() && rest[i] == p;
                    assert(now[i] == p);
                }
            }
        }
    }
}

/// The ascending list of a set of ports is empty exactly when the set is.
pub proof fn lemma_ascending_empty(ports: Set<u16>)
    ensures
        ascending(ports).len() == 0 <==> ports =~= Set::<u16>::empty(),
        forall|p: u16| #[trigger] ascending(ports).contains(p) <==> ports.contains(p),
        strictly_ascending(ascending(ports)),
{
    lemma_ports_below(ports, 0x10000);
    if ascending(ports).len() > 0 {
        assert(ascending(ports).contains(ascending(ports)[0]));
    }
    if !(ports =~= Set::<u16>::empty()) {
        let p = choose|p: u16| ports.contains(p);
        assert(ascending(ports).contains(p));
    }
}

} // verus!
