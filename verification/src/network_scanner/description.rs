//! The one-line summary of a consolidated record.

use crate::model::{labels, opt_text};
use crate::ports::{ascending, sorted_ports};
use crate::text::{
    byte_len, decimal, find_char, has_char, is_str, join, join_chars, push_decimal, push_str,
    shorter_than, texts, to_chars, to_text, views,
};
use std::collections::HashMap;
use vstd::prelude::*;

verus! {

/// The ports that have a label in `m`, in ascending order.
pub open spec fn ascending_ports(m: Map<u16, Seq<char>>) -> Seq<u16> {
    ascending(m.dom())
}

/// How one open port is shown: its label, a colon, and the port number.
pub open spec fn port_item(m: Map<u16, Seq<char>>, port: u16) -> Seq<char> {
    m[port] + seq![':'] + decimal(port as nat)
}

/// The open ports of `m` as they are shown, in ascending order of the port number.
pub open spec fn port_items(m: Map<u16, Seq<char>>) -> Seq<Seq<char>> {
    ascending_ports(m).map_values(|p: u16| port_item(m, p))
}

/// The words that open a description: the name, unless it is 30 bytes or longer or holds a
/// dot; the host name, in round brackets if the name stands before it; the device type in
/// square brackets, unless it is `host` or `unknown`.
pub open spec fn heading_parts(
    name: Seq<char>,
    hostname: Option<Seq<char>>,
    device_type: Option<Seq<char>>,
) -> Seq<Seq<char>> {
    let named = if byte_len(name) < 30 && !has_char(name, '.') {
        seq![name]
    } else {
        Seq::<Seq<char>>::empty()
    };
    let hosted = match hostname {
        Some(h) => if named.len() > 0 {
            named.push(seq!['('] + h + seq![')'])
        } else {
            named.push(h)
        },
        None => named,
    };
    match device_type {
        Some(d) => if d != "host"@ && d != "unknown"@ {
            hosted.push(seq!['['] + d + seq![']'])
        } else {
            hosted
        },
        None => hosted,
    }
}

/// The description of a record: the heading, or `Device at` and the address where the
/// heading is empty; the address, with the port behind a colon if there is one; the open
/// ports, if there are any; and on a line of its own the details, if there are any.
pub open spec fn description_text(
    name: Seq<char>,
    address: Seq<char>,
    port: Option<u16>,
    hostname: Option<Seq<char>>,
    device_type: Option<Seq<char>>,
    open_ports: Map<u16, Seq<char>>,
    details: Seq<Seq<char>>,
) -> Seq<char> {
    let parts = heading_parts(name, hostname, device_type);
    let heading = if parts.len() > 0 {
        join(parts, " "@)
    } else {
        "Device at "@ + address
    };
    let located = match port {
        Some(p) => heading + " - "@ + address + seq![':'] + decimal(p as nat),
        None => heading + " - "@ + address,
    };
    let listed = if ascending_ports(open_ports).len() > 0 {
        located + " - Services: "@ + join(port_items(open_ports), ", "@)
    } else {
        located
    };
    if details.len() > 0 {
        listed + "\nDetails: "@ + join(details, ", "@)
    } else {
        listed
    }
}

/// The characters of `a`, then `inner`, then `b`.
fn enclosed(a: char, inner: &str, b: char) -> (out: Vec<char>)
    ensures
        out@ == seq![a] + inner@ + seq![b],
{
    let mut out: Vec<char> = Vec::new();
    out.push(a);
    push_str(&mut out, inner);
    out.push(b);
    assert(out@ =~= seq![a] + inner@ + seq![b]);
    out
}

/// The words that open a description.
fn heading(name: &str, hostname: &Option<String>, device_type: &Option<String>) -> (out: Vec<
    Vec<char>,
>)
    ensures
        views(out@) == heading_parts(name@, opt_text(*hostname), opt_text(*device_type)),
{
    let mut parts: Vec<Vec<char>> = Vec::new();
    let name_chars = to_chars(name);
    assert(views(parts@) =~= Seq::<Seq<char>>::empty());
    if shorter_than(name_chars.as_slice(), 30) && find_char(name_chars.as_slice(), '.').is_none() {
        parts.push(name_chars);
        assert(views(parts@) =~= seq![name@]);
    }
    let ghost named = views(parts@);
    match hostname {
        Some(h) => {
            if parts.len() > 0 {
                parts.push(enclosed('(', h.as_str(), ')'));
            } else {
                parts.push(to_chars(h.as_str()));
            }
            assert(views(parts@) =~= named.push(parts@.last()@));
        },
        None => {},
    }
    let ghost hosted = views(parts@);
    match device_type {
        Some(d) => {
            let chars = to_chars(d.as_str());
            if !is_str(chars.as_slice(), "host") && !is_str(chars.as_slice(), "unknown") {
                parts.push(enclosed('[', d.as_str(), ']'));
                assert(views(parts@) =~= hosted.push(parts@.last()@));
            }
        },
        None => {},
    }
    parts
}

/// Appends to `out` the open ports of `m` as they are shown, with `, ` between them.
fn push_port_items(out: &mut Vec<char>, m: &HashMap<u16, String>, ports: &Vec<u16>)
    requires
        ports@ == ascending_ports(labels(m@)),
        forall|i: int| 0 <= i < ports.len() ==> m@.contains_key(#[trigger] ports[i]),
    ensures
        final(out)@ == old(out)@ + join(port_items(labels(m@)), ", "@),
{
    let ghost items = port_items(labels(m@));
    let mut i: usize = 0;
    assert(items.take(0) =~= Seq::<Seq<char>>::empty());
    assert(old(out)@ + Seq::<char>::empty() =~= old(out)@);
    while i < ports.len()
        invariant
            i <= ports.len(),
            items == port_items(labels(m@)),
            items.len() == ports.len(),
            ports@ == ascending_ports(labels(m@)),
            forall|j: int| 0 <= j < ports.len() ==> m@.contains_key(#[trigger] ports[j]),
            out@ == old(out)@ + join(items.take(i as int), ", "@),
        decreases ports.len() - i,
    {
        let ghost before = out@;
        let ghost done = join(items.take(i as int), ", "@);
        assert(items.take(i + 1).drop_last() =~= items.take(i as int));
        assert(items.take(i + 1).last() == items[i as int]);
        if i > 0 {
            push_str(out, ", ");
        }
        let port = ports[i];
        let label = m.get(&port).unwrap();
        assert(label@ == labels(m@)[port]);
        push_str(out, label.as_str());
        out.push(':');
        push_decimal(out, port as u64);
        assert(items[i as int] == label@ + seq![':'] + decimal(port as nat));
        if i > 0 {
            assert(out@ =~= old(out)@ + (done + ", "@ + items[i as int]));
        } else {
            assert(out@ =~= old(out)@ + items[i as int]);
        }
        i += 1;
    }
    assert(items.take(i as int) =~= items);
}

/// The description of a record with the given name, address, representative port, host
/// name, device type and open ports, and with the detail lines that were just harvested.
pub fn create_friendly_description(
    name: &str,
    address: &str,
    port: Option<u16>,
    hostname: &Option<String>,
    device_type: &Option<String>,
    open_ports: &HashMap<u16, String>,
    service_details: &[String],
) -> (out: String)
    ensures
        out@ == description_text(
            name@,
            address@,
            port,
            opt_text(*hostname),
            opt_text(*device_type),
            labels(open_ports@),
            texts(service_details@),
        ),
{
    let parts = heading(name, hostname, device_type);
    let mut text: Vec<char> = if parts.len() > 0 {
        join_chars(&parts, " ")
    } else {
        let mut t = to_chars("Device at ");
        push_str(&mut t, address);
        t
    };
    push_str(&mut text, " - ");
    push_str(&mut text, address);
    match port {
        Some(p) => {
            text.push(':');
            push_decimal(&mut text, p as u64);
        },
        None => {},
    }
    let ghost located = text@;
    let ports = sorted_ports(open_ports);
    assert(labels(open_ports@).dom() =~= open_ports@.dom());
    if ports.len() > 0 {
        push_str(&mut text, " - Services: ");
        push_port_items(&mut text, open_ports, &ports);
    }
    let ghost listed = text@;
    if service_details.len() > 0 {
        push_str(&mut text, "\nDetails: ");
        let mut i: usize = 0;
        let ghost details = texts(service_details@);
        assert(details.take(0) =~= Seq::<Seq<char>>::empty());
        assert(text@ + Seq::<char>::empty() =~= text@);
        while i < service_details.len()
            invariant
                i <= service_details.len(),
                details == texts(service_details@),
                text@ == listed + "\nDetails: "@ + join(details.take(i as int), ", "@),
            decreases service_details.len() - i,
        {
            let ghost done = join(details.take(i as int), ", "@);
            assert(details.take(i + 1).drop_last() =~= details.take(i as int));
            assert(details.take(i + 1).last() == details[i as int]);
            if i > 0 {
                push_str(&mut text, ", ");
            }
            push_str(&mut text, service_details[i].as_str());
            if i > 0 {
                assert(text@ =~= listed + "\nDetails: "@ + (done + ", "@ + details[i as int]));
            } else {
                assert(text@ =~= listed + "\nDetails: "@ + details[i as int]);
            }
            i += 1;
        }
        assert(details.take(i as int) =~= details);
    }
    to_text(text.as_slice())
}

} // verus!
