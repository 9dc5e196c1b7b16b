//! Sightings from the answers to a search for devices that describe themselves.

use crate::model::{opt_text, Device, DeviceDescription, NetworkService, Service, ServiceView};
use crate::network_scanner::grouping::service_views;
use crate::network_scanner::network_map::{
    add_to_network_map, lemma_push_to_set, reported, HostView, NetworkMap,
};
use crate::text::{
    after_prefix, contains, contains_str, find, find_char, find_str, join, join_chars, labelled,
    labelled_str, parse_port, parse_u16, piece, piece_of, split, split_chars, starts_with,
    starts_with_str, str_eq, strip_leading, strip_prefix, to_chars, to_text, trim, trim_chars,
    views, without_leading,
};
use vstd::prelude::*;
use vstd::slice::slice_subrange;

verus! {

/// One answer to a search: where the description of the device is, what serves it, what
/// the answer is about, and the unique name of the service.
#[derive(Debug)]
pub struct Announcement {
    pub location: String,
    pub server: String,
    pub search_target: String,
    pub usn: String,
}

/// The address and the port that a location names. A location that begins with `http://`
/// and has a slash behind the host names them: the address is the host up to its colon, and
/// the port what follows the colon, if that is a port number; without a colon the port is
/// 80. Any other location gives the address `Unknown` and no port.
pub open spec fn location_target(location: Seq<char>) -> (Seq<char>, Option<u16>) {
    if !starts_with(location, "http://"@) {
        ("Unknown"@, None)
    } else {
        let rest = without_leading(location, "http://"@);
        match find(rest, seq!['/']) {
            None => ("Unknown"@, None),
            Some(end) => {
                let host = rest.take(end);
                match find(host, seq![':']) {
                    Some(colon) => (host.take(colon), parse_port(host.skip(colon + 1))),
                    None => (host, Some(80u16)),
                }
            },
        }
    }
}

/// The address and the port that a location names.
pub fn parse_location(location: &str) -> (r: (String, Option<u16>))
    ensures
        r.0@ == location_target(location@).0,
        r.1 == location_target(location@).1,
{
    let chars = to_chars(location);
    if !starts_with_str(chars.as_slice(), "http://") {
        return ("Unknown".to_string(), None);
    }
    let rest = strip_leading(chars.as_slice(), "http://");
    match find_char(rest, '/') {
        None => ("Unknown".to_string(), None),
        Some(end) => {
            let host = slice_subrange(rest, 0, end);
            assert(host@ =~= rest@.take(end as int));
            match find_char(host, ':') {
                Some(colon) => {
                    let name = slice_subrange(host, 0, colon);
                    let number = slice_subrange(host, colon + 1, host.len());
                    assert(name@ =~= host@.take(colon as int));
                    assert(number@ =~= host@.skip(colon + 1));
                    (to_text(name), parse_u16(number))
                },
                None => (to_text(host), Some(80)),
            }
        },
    }
}

/// The line for an optional value: the label and the value, or no line where there is no
/// value.
pub open spec fn field_lines(label: Seq<char>, value: Option<Seq<char>>) -> Seq<Seq<char>> {
    match value {
        Some(v) => seq![label + v],
        None => Seq::<Seq<char>>::empty(),
    }
}

/// The lines for a type: the type, and the protocol that it names as its fourth piece
/// between colons, if it has that many.
pub open spec fn type_lines(label: Seq<char>, protocol_label: Seq<char>, value: Option<Seq<char>>) -> Seq<
    Seq<char>,
> {
    match value {
        Some(t) => seq![label + t] + field_lines(protocol_label, piece(t, ':', 3)),
        None => Seq::<Seq<char>>::empty(),
    }
}

/// The lines for the second and the fourth piece of a name with at least four pieces
/// between colons.
pub open spec fn urn_lines(name: Seq<char>, second_label: Seq<char>, fourth_label: Seq<char>) -> Seq<
    Seq<char>,
> {
    let parts = split(name, ':');
    if parts.len() >= 4 {
        seq![second_label + parts[1], fourth_label + parts[3]]
    } else {
        Seq::<Seq<char>>::empty()
    }
}

/// The lines for the maker of a device; the maker's URL is given only with the maker.
pub open spec fn maker_lines(d: Device) -> Seq<Seq<char>> {
    match d.manufacturer {
        Some(m) => seq!["Manufacturer: "@ + m@] + field_lines(
            "Manufacturer URL: "@,
            opt_text(d.manufacturer_url),
        ),
        None => Seq::<Seq<char>>::empty(),
    }
}

/// The lines for the model of a device; description, number and URL are given only with
/// the model's name.
pub open spec fn model_lines(d: Device) -> Seq<Seq<char>> {
    match d.model_name {
        Some(m) => seq!["Model: "@ + m@] + field_lines(
            "Model Description: "@,
            opt_text(d.model_description),
        ) + field_lines("Model Number: "@, opt_text(d.model_number)) + field_lines(
            "Model URL: "@,
            opt_text(d.model_url),
        ),
        None => Seq::<Seq<char>>::empty(),
    }
}

/// The lines for the unique device name, with the UUID that follows `uuid:` in it.
pub open spec fn udn_lines(udn: Option<Seq<char>>) -> Seq<Seq<char>> {
    match udn {
        Some(u) => seq!["UDN: "@ + u] + field_lines("UUID: "@, after_prefix(u, "uuid:"@)),
        None => Seq::<Seq<char>>::empty(),
    }
}

/// The lines for one service of a device, closed by an empty line.
pub open spec fn service_lines(s: Service) -> Seq<Seq<char>> {
    seq!["  Service Type: "@ + s.service_type@] + urn_lines(
        s.service_type@,
        "    Protocol: "@,
        "    Service: "@,
    ) + seq!["  Service ID: "@ + s.service_id@] + field_lines(
        "    Control URL: "@,
        opt_text(s.control_url),
    ) + field_lines("    Event Sub URL: "@, opt_text(s.event_sub_url)) + field_lines(
        "    SCPD URL: "@,
        opt_text(s.scpd_url),
    ) + seq![Seq::<char>::empty()]
}

/// The lines for the services, one after the other.
pub open spec fn all_service_lines(services: Seq<Service>) -> Seq<Seq<char>>
    decreases services.len(),
{
    if services.len() == 0 {
        Seq::<Seq<char>>::empty()
    } else {
        all_service_lines(services.drop_last()) + service_lines(services.last())
    }
}

/// The lines for one embedded device, closed by an empty line.
pub open spec fn embedded_lines(d: Device) -> Seq<Seq<char>> {
    seq!["  Device:"@] + field_lines("    Name: "@, opt_text(d.friendly_name)) + type_lines(
        "    Type: "@,
        "    Protocol: "@,
        opt_text(d.device_type),
    ) + field_lines("    Model: "@, opt_text(d.model_name)) + field_lines(
        "    Manufacturer: "@,
        opt_text(d.manufacturer),
    ) + seq![Seq::<char>::empty()]
}

/// The lines for the embedded devices, one after the other.
pub open spec fn all_embedded_lines(devices: Seq<Device>) -> Seq<Seq<char>>
    decreases devices.len(),
{
    if devices.len() == 0 {
        Seq::<Seq<char>>::empty()
    } else {
        all_embedded_lines(devices.drop_last()) + embedded_lines(devices.last())
    }
}

/// The lines for the list of services of a device, under a heading.
pub open spec fn service_list_lines(d: Device) -> Seq<Seq<char>> {
    match d.service_list {
        Some(list) => seq!["\nServices:"@] + all_service_lines(list.services@),
        None => Seq::<Seq<char>>::empty(),
    }
}

/// The lines for the list of embedded devices of a device, under a heading.
pub open spec fn device_list_lines(d: Device) -> Seq<Seq<char>> {
    match d.device_list {
        Some(list) => seq!["\nEmbedded Devices:"@] + all_embedded_lines(list.devices@),
        None => Seq::<Seq<char>>::empty(),
    }
}

/// The lines that a device description gives.
pub open spec fn description_lines(d: Device) -> Seq<Seq<char>> {
    type_lines("Device Type: "@, "Protocol: "@, opt_text(d.device_type)) + field_lines(
        "Name: "@,
        opt_text(d.friendly_name),
    ) + maker_lines(d) + model_lines(d) + field_lines(
        "Serial Number: "@,
        opt_text(d.serial_number),
    ) + udn_lines(opt_text(d.udn)) + field_lines("Web Interface: "@, opt_text(d.presentation_url))
        + service_list_lines(d) + device_list_lines(d)
}

/// The lines for the server of an answer: the server; the operating system, which is what
/// stands before its first slash, if it has a slash; and the UPnP version, which is the
/// server from `UPnP` on, if it has a slash and that word.
pub open spec fn server_lines(server: Seq<char>) -> Seq<Seq<char>> {
    let parts = split(server, '/');
    let system = if parts.len() > 1 {
        seq!["  OS: "@ + trim(parts[0])] + (match find(server, "UPnP"@) {
            Some(i) => seq!["  UPnP Version: "@ + server.skip(i)],
            None => Seq::<Seq<char>>::empty(),
        })
    } else {
        Seq::<Seq<char>>::empty()
    };
    seq!["Server: "@ + server] + system
}

/// The lines for the search target of an answer.
pub open spec fn target_lines(target: Seq<char>) -> Seq<Seq<char>> {
    seq!["Search Target: "@ + target] + (if contains(target, "urn:"@) {
        urn_lines(target, "  Protocol: "@, "  Service Type: "@)
    } else {
        Seq::<Seq<char>>::empty()
    })
}

/// The UUID in a unique service name: what stands between `uuid:` at its start and its
/// first `::`.
pub open spec fn usn_uuid(usn: Seq<char>) -> Option<Seq<char>> {
    match find(usn, "::"@) {
        Some(end) => after_prefix(usn.take(end), "uuid:"@),
        None => None,
    }
}

/// The lines for the unique service name of an answer.
pub open spec fn usn_lines(usn: Seq<char>) -> Seq<Seq<char>> {
    seq!["USN: "@ + usn] + field_lines("  UUID: "@, usn_uuid(usn))
}

/// The lines that an answer itself gives, under a heading.
pub open spec fn announcement_lines(a: Announcement) -> Seq<Seq<char>> {
    seq!["\nSSDP Information:"@, "Location: "@ + a.location@] + server_lines(a.server@)
        + target_lines(a.search_target@) + usn_lines(a.usn@)
}

/// The lines of the details of a sighting: those of the description, if there is one, and
/// those of the answer.
pub open spec fn upnp_detail_lines(a: Announcement, description: Option<DeviceDescription>) -> Seq<
    Seq<char>,
> {
    (match description {
        Some(d) => description_lines(d.device),
        None => Seq::<Seq<char>>::empty(),
    }) + announcement_lines(a)
}

/// The name for a device at `address` of which no description says more.
pub open spec fn fallback_name(address: Seq<char>) -> Seq<char> {
    "UPnP Device at "@ + address
}

/// The name of a sighting: the friendly name of the description, else its model name, else
/// the fallback name.
pub open spec fn upnp_name(description: Option<DeviceDescription>, address: Seq<char>) -> Seq<
    char,
> {
    match description {
        Some(d) => match d.device.friendly_name {
            Some(n) => n@,
            None => match d.device.model_name {
                Some(m) => m@,
                None => fallback_name(address),
            },
        },
        None => fallback_name(address),
    }
}

/// The service type of a sighting: the device type of the description, else `UPnP Device`.
pub open spec fn upnp_type(description: Option<DeviceDescription>) -> Seq<char> {
    match description {
        Some(d) => match d.device.device_type {
            Some(t) => t@,
            None => "UPnP Device"@,
        },
        None => "UPnP Device"@,
    }
}

/// The sighting that an answer gives, with the description of the device where it could
/// be had. Without a description the sighting stands all the same, under the fallback
/// name.
pub open spec fn announced(a: Announcement, description: Option<DeviceDescription>) -> ServiceView {
    let target = location_target(a.location@);
    ServiceView {
        name: upnp_name(description, target.0),
        service_type: upnp_type(description),
        address: target.0,
        port: target.1,
        discovery_method: "UPnP"@,
        details: Some(join(upnp_detail_lines(a, description), "\n"@)),
    }
}

/// Puts `line` at the end of `lines`.
fn push_line(lines: &mut Vec<Vec<char>>, line: Vec<char>)
    ensures
        views(final(lines)@) == views(old(lines)@).push(line@),
        views(final(lines)@) == views(old(lines)@) + seq![line@],
{
    lines.push(line);
    assert(views(lines@) =~= views(old(lines)@).push(line@));
    assert(views(lines@) =~= views(old(lines)@) + seq![line@]);
}

/// Puts at the end of `lines` the line for an optional value.
fn push_field(lines: &mut Vec<Vec<char>>, label: &str, value: &Option<String>)
    ensures
        views(final(lines)@) == views(old(lines)@) + field_lines(label@, opt_text(*value)),
{
    match value {
        Some(v) => {
            push_line(lines, labelled_str(label, v.as_str()));
        },
        None => {
            assert(views(lines@) =~= views(old(lines)@) + Seq::<Seq<char>>::empty());
        },
    }
}

/// Puts at the end of `lines` the lines for a type.
fn push_type(lines: &mut Vec<Vec<char>>, label: &str, protocol_label: &str, value: &Option<String>)
    ensures
        views(final(lines)@) == views(old(lines)@) + type_lines(
            label@,
            protocol_label@,
            opt_text(*value),
        ),
{
    match value {
        Some(t) => {
            push_line(lines, labelled_str(label, t.as_str()));
            let chars = to_chars(t.as_str());
            match piece_of(chars.as_slice(), ':', 3) {
                Some(p) => {
                    push_line(lines, labelled(protocol_label, p.as_slice()));
                    assert(views(lines@) =~= views(old(lines)@) + type_lines(
                        label@,
                        protocol_label@,
                        opt_text(*value),
                    ));
                },
                None => {
                    assert(views(lines@) =~= views(old(lines)@) + type_lines(
                        label@,
                        protocol_label@,
                        opt_text(*value),
                    ));
                },
            }
        },
        None => {
            assert(views(lines@) =~= views(old(lines)@) + Seq::<Seq<char>>::empty());
        },
    }
}

/// Puts at the end of `lines` the lines for the second and fourth piece of `name`.
fn push_urn(lines: &mut Vec<Vec<char>>, name: &str, second_label: &str, fourth_label: &str)
    ensures
        views(final(lines)@) == views(old(lines)@) + urn_lines(
            name@,
            second_label@,
            fourth_label@,
        ),
{
    let chars = to_chars(name);
    let parts = split_chars(chars.as_slice(), ':');
    if parts.len() >= 4 {
        assert(views(parts@)[1] == parts[1]@);
        assert(views(parts@)[3] == parts[3]@);
        push_line(lines, labelled(second_label, parts[1].as_slice()));
        push_line(lines, labelled(fourth_label, parts[3].as_slice()));
        assert(views(lines@) =~= views(old(lines)@) + urn_lines(
            name@,
            second_label@,
            fourth_label@,
        ));
    } else {
        assert(views(lines@) =~= views(old(lines)@) + Seq::<Seq<char>>::empty());
    }
}

/// Puts at the end of `lines` the lines for one service.
fn push_service(lines: &mut Vec<Vec<char>>, s: &Service)
    ensures
        views(final(lines)@) == views(old(lines)@) + service_lines(*s),
{
    let ghost l0 = views(lines@);
    push_line(lines, labelled_str("  Service Type: ", s.service_type.as_str()));
    push_urn(lines, s.service_type.as_str(), "    Protocol: ", "    Service: ");
    push_line(lines, labelled_str("  Service ID: ", s.service_id.as_str()));
    push_field(lines, "    Control URL: ", &s.control_url);
    push_field(lines, "    Event Sub URL: ", &s.event_sub_url);
    push_field(lines, "    SCPD URL: ", &s.scpd_url);
    push_line(lines, Vec::new());
    assert(views(lines@) =~= l0 + service_lines(*s));
}

/// Puts at the end of `lines` the lines for one embedded device.
fn push_embedded(lines: &mut Vec<Vec<char>>, d: &Device)
    ensures
        views(final(lines)@) == views(old(lines)@) + embedded_lines(*d),
{
    let ghost l0 = views(lines@);
    push_line(lines, to_chars("  Device:"));
    push_field(lines, "    Name: ", &d.friendly_name);
    push_type(lines, "    Type: ", "    Protocol: ", &d.device_type);
    push_field(lines, "    Model: ", &d.model_name);
    push_field(lines, "    Manufacturer: ", &d.manufacturer);
    push_line(lines, Vec::new());
    assert(views(lines@) =~= l0 + embedded_lines(*d));
}

/// Puts at the end of `lines` the lines for the maker of a device.
fn push_maker(lines: &mut Vec<Vec<char>>, d: &Device)
    ensures
        views(final(lines)@) == views(old(lines)@) + maker_lines(*d),
{
    match &d.manufacturer {
        Some(m) => {
            push_line(lines, labelled_str("Manufacturer: ", m.as_str()));
            push_field(lines, "Manufacturer URL: ", &d.manufacturer_url);
        },
        None => {},
    }
    assert(views(lines@) =~= views(old(lines)@) + maker_lines(*d));
}

/// Puts at the end of `lines` the lines for the model of a device.
fn push_model(lines: &mut Vec<Vec<char>>, d: &Device)
    ensures
        views(final(lines)@) == views(old(lines)@) + model_lines(*d),
{
    match &d.model_name {
        Some(m) => {
            push_line(lines, labelled_str("Model: ", m.as_str()));
            push_field(lines, "Model Description: ", &d.model_description);
            push_field(lines, "Model Number: ", &d.model_number);
            push_field(lines, "Model URL: ", &d.model_url);
        },
        None => {},
    }
    assert(views(lines@) =~= views(old(lines)@) + model_lines(*d));
}

/// Puts at the end of `lines` the lines for the unique device name.
fn push_udn(lines: &mut Vec<Vec<char>>, udn: &Option<String>)
    ensures
        views(final(lines)@) == views(old(lines)@) + udn_lines(opt_text(*udn)),
{
    match udn {
        Some(u) => {
            push_line(lines, labelled_str("UDN: ", u.as_str()));
            let chars = to_chars(u.as_str());
            match strip_prefix(chars.as_slice(), "uuid:") {
                Some(rest) => {
                    push_line(lines, labelled("UUID: ", rest));
                },
                None => {},
            }
        },
        None => {},
    }
    assert(views(lines@) =~= views(old(lines)@) + udn_lines(opt_text(*udn)));
}

/// Puts at the end of `lines` the lines for the list of services of a device.
fn push_service_list(lines: &mut Vec<Vec<char>>, d: &Device)
    ensures
        views(final(lines)@) == views(old(lines)@) + service_list_lines(*d),
{
    match &d.service_list {
        Some(list) => {
            push_line(lines, to_chars("\nServices:"));
            let ghost l5 = views(lines@);
            let mut i: usize = 0;
            assert(list.services@.take(0) =~= Seq::<Service>::empty());
            assert(l5 + Seq::<Seq<char>>::empty() =~= l5);
            while i < list.services.len()
                invariant
                    i <= list.services.len(),
                    views(lines@) == l5 + all_service_lines(list.services@.take(i as int)),
                decreases list.services.len() - i,
            {
                assert(list.services@.take(i + 1).drop_last() =~= list.services@.take(i as int));
                assert(list.services@.take(i + 1).last() == list.services[i as int]);
                push_service(lines, &list.services[i]);
                assert(views(lines@) =~= l5 + all_service_lines(list.services@.take(i + 1)));
                i += 1;
            }
            assert(list.services@.take(i as int) =~= list.services@);
            assert(views(lines@) =~= views(old(lines)@) + service_list_lines(*d));
        },
        None => {
            assert(views(lines@) =~= views(old(lines)@) + service_list_lines(*d));
        },
    }
}

/// Puts at the end of `lines` the lines for the list of embedded devices of a device.
fn push_device_list(lines: &mut Vec<Vec<char>>, d: &Device)
    ensures
        views(final(lines)@) == views(old(lines)@) + device_list_lines(*d),
{
    match &d.device_list {
        Some(list) => {
            push_line(lines, to_chars("\nEmbedded Devices:"));
            let ghost l7 = views(lines@);
            let mut i: usize = 0;
            assert(list.devices@.take(0) =~= Seq::<Device>::empty());
            assert(l7 + Seq::<Seq<char>>::empty() =~= l7);
            while i < list.devices.len()
                invariant
                    i <= list.devices.len(),
                    views(lines@) == l7 + all_embedded_lines(list.devices@.take(i as int)),
                decreases list.devices.len() - i,
            {
                assert(list.devices@.take(i + 1).drop_last() =~= list.devices@.take(i as int));
                assert(list.devices@.take(i + 1).last() == list.devices[i as int]);
                push_embedded(lines, &list.devices[i]);
                assert(views(lines@) =~= l7 + all_embedded_lines(list.devices@.take(i + 1)));
                i += 1;
            }
            assert(list.devices@.take(i as int) =~= list.devices@);
            assert(views(lines@) =~= views(old(lines)@) + device_list_lines(*d));
        },
        None => {
            assert(views(lines@) =~= views(old(lines)@) + device_list_lines(*d));
        },
    }
}

/// Puts at the end of `lines` the lines that a device description gives.
fn push_description(lines: &mut Vec<Vec<char>>, d: &Device)
    ensures
        views(final(lines)@) == views(old(lines)@) + description_lines(*d),
{
    let ghost l0 = views(lines@);
    push_type(lines, "Device Type: ", "Protocol: ", &d.device_type);
    push_field(lines, "Name: ", &d.friendly_name);
    push_maker(lines, d);
    push_model(lines, d);
    push_field(lines, "Serial Number: ", &d.serial_number);
    push_udn(lines, &d.udn);
    push_field(lines, "Web Interface: ", &d.presentation_url);
    push_service_list(lines, d);
    push_device_list(lines, d);
    assert(views(lines@) =~= l0 + description_lines(*d));
}

/// Puts at the end of `lines` the lines that an answer itself gives.
fn push_announcement(lines: &mut Vec<Vec<char>>, a: &Announcement)
    ensures
        views(final(lines)@) == views(old(lines)@) + announcement_lines(*a),
{
    let ghost l0 = views(lines@);
    push_line(lines, to_chars("\nSSDP Information:"));
    push_line(lines, labelled_str("Location: ", a.location.as_str()));
    let ghost l1 = views(lines@);
    push_line(lines, labelled_str("Server: ", a.server.as_str()));
    let server = to_chars(a.server.as_str());
    let parts = split_chars(server.as_slice(), '/');
    if parts.len() > 1 {
        assert(views(parts@)[0] == parts[0]@);
        push_line(lines, labelled("  OS: ", trim_chars(parts[0].as_slice())));
        match find_str(server.as_slice(), "UPnP") {
            Some(i) => {
                let rest = slice_subrange(server.as_slice(), i, server.len());
                assert(rest@ =~= a.server@.skip(i as int));
                push_line(lines, labelled("  UPnP Version: ", rest));
            },
            None => {},
        }
    }
    assert(views(lines@) =~= l1 + server_lines(a.server@));
    let ghost l2 = views(lines@);
    push_line(lines, labelled_str("Search Target: ", a.search_target.as_str()));
    let target = to_chars(a.search_target.as_str());
    if contains_str(target.as_slice(), "urn:") {
        push_urn(lines, a.search_target.as_str(), "  Protocol: ", "  Service Type: ");
    }
    assert(views(lines@) =~= l2 + target_lines(a.search_target@));
    let ghost l3 = views(lines@);
    push_line(lines, labelled_str("USN: ", a.usn.as_str()));
    let usn = to_chars(a.usn.as_str());
    match find_str(usn.as_slice(), "::") {
        Some(end) => {
            let head = slice_subrange(usn.as_slice(), 0, end);
            assert(head@ =~= a.usn@.take(end as int));
            match strip_prefix(head, "uuid:") {
                Some(uuid) => {
                    push_line(lines, labelled("  UUID: ", uuid));
                },
                None => {},
            }
        },
        None => {},
    }
    assert(views(lines@) =~= l3 + usn_lines(a.usn@));
    assert(views(lines@) =~= l0 + announcement_lines(*a));
}

/// The name for a device at `address` of which no description says more.
fn fallback_name_for(address: &str) -> (out: String)
    ensures
        out@ == fallback_name(address@),
{
    to_text(labelled_str("UPnP Device at ", address).as_slice())
}

/// The sighting that an answer gives, with the description of the device where it could
/// be had.
pub fn upnp_service(a: &Announcement, description: &Option<DeviceDescription>) -> (s:
    NetworkService)
    ensures
        s@ == announced(*a, *description),
{
    let (address, port) = parse_location(a.location.as_str());
    let mut lines: Vec<Vec<char>> = Vec::new();
    assert(views(lines@) =~= Seq::<Seq<char>>::empty());
    match description {
        Some(d) => {
            push_description(&mut lines, &d.device);
        },
        None => {},
    }
    push_announcement(&mut lines, a);
    assert(views(lines@) =~= upnp_detail_lines(*a, *description));
    let name = match description {
        Some(d) => match &d.device.friendly_name {
            Some(n) => n.clone(),
            None => match &d.device.model_name {
                Some(m) => m.clone(),
                None => fallback_name_for(address.as_str()),
            },
        },
        None => fallback_name_for(address.as_str()),
    };
    let service_type = match description {
        Some(d) => match &d.device.device_type {
            Some(t) => t.clone(),
            None => "UPnP Device".to_string(),
        },
        None => "UPnP Device".to_string(),
    };
    NetworkService {
        name,
        service_type,
        address,
        port,
        discovery_method: "UPnP".to_string(),
        details: Some(to_text(join_chars(&lines, "\n").as_slice())),
    }
}

/// The first piece of `address` up to a colon.
pub open spec fn host_of(address: Seq<char>) -> Seq<char> {
    split(address, ':')[0]
}

/// The map `m` after the sighting `s` of a self-describing device was taken in: unless
/// the address is `Unknown`, its port, or 80 where it has none, is an open TCP port of
/// the host at its address.
pub open spec fn with_upnp_host(m: Map<Seq<char>, HostView>, s: ServiceView) -> Map<
    Seq<char>,
    HostView,
> {
    if s.address == "Unknown"@ {
        m
    } else {
        reported(
            m,
            s.address,
            Some(host_of(s.address)),
            set![match s.port {
                Some(p) => p,
                None => 80u16,
            }],
            Set::<u16>::empty(),
        )
    }
}

/// Takes the sighting `service` of a self-describing device into `map`.
pub fn record_upnp_host(map: &mut NetworkMap, service: &NetworkService)
    requires
        old(map).wf(),
    ensures
        final(map).wf(),
        final(map)@ == with_upnp_host(old(map)@, service@),
{
    if !str_eq(service.address.as_str(), "Unknown") {
        let chars = to_chars(service.address.as_str());
        let parts = split_chars(chars.as_slice(), ':');
        assert(views(parts@)[0] == parts[0]@);
        let host = to_text(parts[0].as_slice());
        let mut ports: Vec<u16> = Vec::new();
        let port: u16 = match service.port {
            Some(p) => p,
            None => 80,
        };
        ports.push(port);
        proof {
            lemma_push_to_set(Seq::<u16>::empty(), port);
            assert(Seq::<u16>::empty().to_set() =~= Set::<u16>::empty());
            assert(ports@ =~= Seq::<u16>::empty().push(port));
            assert(ports@.to_set() =~= set![port]);
        }
        add_to_network_map(map, service.address.as_str(), Some(host), Some(ports), None);
    }
}

/// Whether one of `kept` has the address `address` and the port `port`.
pub open spec fn has_target(kept: Seq<ServiceView>, address: Seq<char>, port: Option<u16>) -> bool {
    exists|i: int|
        0 <= i < kept.len() && (#[trigger] kept[i]).address == address && kept[i].port == port
}

/// The sightings without repetitions: each sighting in order, unless one with the same
/// address and port was kept before it.
pub open spec fn first_of_each(all: Seq<ServiceView>) -> Seq<ServiceView>
    decreases all.len(),
{
    if all.len() == 0 {
        all
    } else {
        let kept = first_of_each(all.drop_last());
        if has_target(kept, all.last().address, all.last().port) {
            kept
        } else {
            kept.push(all.last())
        }
    }
}

/// Among the sightings that are kept no two have the same address and port, and each
/// sighting has its address and port among them.
pub proof fn lemma_first_of_each(all: Seq<ServiceView>)
    ensures
        forall|i: int, j: int|
            0 <= i < j < first_of_each(all).len() ==> !((#[trigger] first_of_each(all)[i]).address
                == (#[trigger] first_of_each(all)[j]).address && first_of_each(all)[i].port
                == first_of_each(all)[j].port),
        forall|k: int|
            0 <= k < all.len() ==> has_target(
                first_of_each(all),
                (#[trigger] all[k]).address,
                all[k].port,
            ),
        forall|i: int|
            0 <= i < first_of_each(all).len() ==> all.contains(#[trigger] first_of_each(all)[i]),
    decreases all.len(),
{
    if all.len() > 0 {
        let before = all.drop_last();
        let last = all.last();
        lemma_first_of_each(before);
        let kept = first_of_each(before);
        let now = first_of_each(all);
        assert forall|k: int| 0 <= k < all.len() implies has_target(
            now,
            (#[trigger] all[k]).address,
            all[k].port,
        ) by {
            if k < before.len() {
                assert(before[k] == all[k]);
                let i = choose|i: int|
                    0 <= i < kept.len() && (#[trigger] kept[i]).address == all[k].address
                        && kept[i].port == all[k].port;
                assert(now[i] == kept[i]);
            } else if has_target(kept, last.address, last.port) {
            } else {
                assert(now[kept.len() as int] == last);
            }
        }
        assert forall|i: int| 0 <= i < now.len() implies all.contains(#[trigger] now[i]) by {
            if i < kept.len() {
                assert(before.contains(kept[i]));
                let k = choose|k: int| 0 <= k < before.len() && before[k] == kept[i];
                assert(all[k] == kept[i]);
            } else {
                assert(all[all.len() - 1] == now[i]);
            }
        }
    }
}

/// Whether one of `kept` has the address and the port of `s`.
fn holds_target(kept: &Vec<NetworkService>, s: &NetworkService) -> (r: bool)
    ensures
        r == has_target(service_views(kept@), s@.address, s@.port),
{
    let mut i: usize = 0;
    while i < kept.len()
        invariant
            i <= kept.len(),
            forall|j: int|
                0 <= j < i ==> !((#[trigger] service_views(kept@)[j]).address == s@.address
                    && service_views(kept@)[j].port == s@.port),
        decreases kept.len() - i,
    {
        assert(service_views(kept@)[i as int] == kept[i as int]@);
        if kept[i].address == s.address && kept[i].port == s.port {
            return true;
        }
        i += 1;
    }
    false
}

/// The sightings without repetitions: each sighting in order, unless one with the same
/// address and port stands before it.
pub fn dedup_services(services: &Vec<NetworkService>) -> (out: Vec<NetworkService>)
    ensures
        service_views(out@) == first_of_each(service_views(services@)),
{
    let ghost all = service_views(services@);
    let mut out: Vec<NetworkService> = Vec::new();
    let mut n: usize = 0;
    assert(all.take(0) =~= Seq::<ServiceView>::empty());
    assert(service_views(out@) =~= Seq::<ServiceView>::empty());
    while n < services.len()
        invariant
            n <= services.len(),
            all == service_views(services@),
            service_views(out@) == first_of_each(all.take(n as int)),
        decreases services.len() - n,
    {
        let s = &services[n];
        assert(all.take(n + 1).drop_last() =~= all.take(n as int));
        assert(all.take(n + 1).last() == s@);
        let seen = holds_target(&out, s);
        if !seen {
            let ghost kept = service_views(out@);
            out.push(s.clone());
            assert(service_views(out@) =~= kept.push(s@));
        }
        n += 1;
    }
    assert(all.take(n as int) =~= all);
    out
}

/// An answer gives a sighting also where the description of the device could not be had:
/// it stands under the fallback name, as a `UPnP Device` found by `UPnP`, at the address
/// and port that the location names, and its details are those of the answer alone.
pub proof fn lemma_sighting_without_description(a: Announcement)
    ensures
        announced(a, None).name == "UPnP Device at "@ + location_target(a.location@).0,
        announced(a, None).service_type == "UPnP Device"@,
        announced(a, None).address == location_target(a.location@).0,
        announced(a, None).port == location_target(a.location@).1,
        announced(a, None).discovery_method == "UPnP"@,
        announced(a, None).details == Some(join(announcement_lines(a), "\n"@)),
{
    assert(upnp_detail_lines(a, None) =~= announcement_lines(a));
}

/// For how many seconds the answers to one search are waited for.
pub const SEARCH_TIMEOUT_SECS: u64 = 2;

/// How often a search is repeated.
pub const SEARCH_REPEATS: usize = 1;

/// What a search asks for.
#[derive(Debug, PartialEq, Eq)]
pub enum SearchVariant {
    /// Root devices only.
    RootDevice,
    /// All devices and services.
    All,
    /// The device with this unique identifier.
    Uuid(String),
}

/// The searches that are made, in order: for root devices, for everything, and for the
/// device whose identifier is `upnp:rootdevice`.
pub fn search_variants() -> (out: Vec<SearchVariant>)
    ensures
        out.len() == 3,
        out[0] == SearchVariant::RootDevice,
        out[1] == SearchVariant::All,
        out[2] matches SearchVariant::Uuid(id) && id@ == "upnp:rootdevice"@,
{
    let mut out: Vec<SearchVariant> = Vec::new();
    out.push(SearchVariant::RootDevice);
    out.push(SearchVariant::All);
    out.push(SearchVariant::Uuid("upnp:rootdevice".to_string()));
    out
}

} // verus!
