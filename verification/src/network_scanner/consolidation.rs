//! Merging the sightings of one address into one record.

use crate::model::{labels, ConsolidatedService, ConsolidatedView, NetworkService, ServiceView};
use crate::network_scanner::description::{create_friendly_description, description_text};
use crate::text::{
    contains, contains_str, find, find_char, has_char, lemma_find_first_separator, lines,
    parse_port, parse_u16, split, split_chars, split_lines, starts_with, starts_with_str, texts,
    to_chars, to_text, trim, trim_chars, views,
};
use std::collections::HashMap;
use vstd::prelude::*;
use vstd::slice::slice_subrange;

verus! {

/// Whether the line names the host: it begins with `Host:` or `Hostname:`.
pub open spec fn is_host_line(line: Seq<char>) -> bool {
    starts_with(line, "Host:"@) || starts_with(line, "Hostname:"@)
}

/// Whether the line is one that is kept as a detail: it begins with `Model:`,
/// `Manufacturer:`, `Device Type:` or `Service Type:`.
pub open spec fn is_detail_line(line: Seq<char>) -> bool {
    starts_with(line, "Model:"@) || starts_with(line, "Manufacturer:"@) || starts_with(
        line,
        "Device Type:"@,
    ) || starts_with(line, "Service Type:"@)
}

/// Whether the line holds a URL: `://` stands in it.
pub open spec fn is_url_line(line: Seq<char>) -> bool {
    contains(line, "://"@) && has_char(line, ':')
}

/// Whether the line may pair a port with a label: it holds a colon and begins with none of
/// `IP:`, `Type:`, `USN:` and `Full Name:`.
pub open spec fn is_pair_line(line: Seq<char>) -> bool {
    has_char(line, ':') && !starts_with(line, "IP:"@) && !starts_with(line, "Type:"@)
        && !starts_with(line, "USN:"@) && !starts_with(line, "Full Name:"@)
}

/// The value of a line that begins with a key and a colon: all that follows the first
/// colon of the line, without the white space around it. A value may hold colons itself,
/// as a URL does. The value is empty where the line has no colon.
pub open spec fn field_value(line: Seq<char>) -> Seq<char> {
    match find(line, seq![':']) {
        Some(i) => trim(line.skip(i + 1)),
        None => Seq::<char>::empty(),
    }
}

/// The port that ends a line with a URL: what follows the last colon, read as a number.
pub open spec fn url_port(line: Seq<char>) -> Option<u16> {
    parse_port(trim(split(line, ':').last()))
}

/// The port and the label of a line that pairs a label with a port, as `ssh:22` or
/// `Port: 631` does: the port is what follows the first colon, read as a number, and the
/// label what stands before that colon; the white space around either is dropped. A line
/// gives no pair where what follows its first colon is no port number.
pub open spec fn paired_port(line: Seq<char>) -> Option<(u16, Seq<char>)> {
    match find(line, seq![':']) {
        Some(i) => match parse_port(trim(line.skip(i + 1))) {
            Some(p) => Some((p, trim(line.take(i)))),
            None => None,
        },
        None => None,
    }
}

/// The open port that the line reports, with its label, if it reports one.
pub open spec fn line_port(line: Seq<char>) -> Option<(u16, Seq<char>)> {
    if is_url_line(line) {
        match url_port(line) {
            Some(p) => Some((p, "Web Interface"@)),
            None => None,
        }
    } else if is_pair_line(line) {
        paired_port(line)
    } else {
        None
    }
}

/// The record `c` after one line of the details of the sighting that founded it. A line
/// that names the host, the UUID, the location or the server sets that field to its value;
/// any other line that reports a port gives that port its label. Among the lines of these
/// details a later line counts over an earlier one.
pub open spec fn seeded_line(c: ConsolidatedView, line: Seq<char>) -> ConsolidatedView {
    if is_host_line(line) {
        ConsolidatedView { hostname: Some(field_value(line)), ..c }
    } else if starts_with(line, "UUID:"@) {
        ConsolidatedView { uuid: Some(field_value(line)), ..c }
    } else if starts_with(line, "Location:"@) {
        ConsolidatedView { location_url: Some(field_value(line)), ..c }
    } else if starts_with(line, "Server:"@) {
        ConsolidatedView { server_info: Some(field_value(line)), ..c }
    } else {
        match line_port(line) {
            Some((p, label)) => ConsolidatedView { open_ports: c.open_ports.insert(p, label), ..c },
            None => c,
        }
    }
}

/// The record `c` after the lines of the details of the sighting that founded it.
pub open spec fn seeded_lines(c: ConsolidatedView, all: Seq<Seq<char>>) -> ConsolidatedView
    decreases all.len(),
{
    if all.len() == 0 {
        c
    } else {
        seeded_line(seeded_lines(c, all.drop_last()), all.last())
    }
}

/// `s` without the dots at its end.
pub open spec fn without_final_dots(s: Seq<char>) -> Seq<char>
    decreases s.len(),
{
    if s.len() > 0 && s.last() == '.' {
        without_final_dots(s.drop_last())
    } else {
        s
    }
}

/// The device type that a service type suggests. Where the service type holds an underscore
/// and a dot it is a multicast service type, and the device type is what stands between its
/// first and second underscore, without the dots at its end; else it is the service type.
pub open spec fn guessed_device_type(service_type: Seq<char>) -> Seq<char> {
    if has_char(service_type, '_') && has_char(service_type, '.') {
        let parts = split(service_type, '_');
        without_final_dots(
            if parts.len() > 1 {
                parts[1]
            } else {
                "unknown"@
            },
        )
    } else {
        service_type
    }
}

/// The lines of optional details; none where there are no details.
pub open spec fn detail_lines(details: Option<Seq<char>>) -> Seq<Seq<char>> {
    match details {
        Some(d) => lines(d),
        None => Seq::<Seq<char>>::empty(),
    }
}

/// `m` with `label` for `port`, unless `port` has a label already.
pub open spec fn with_port(m: Map<u16, Seq<char>>, port: u16, label: Seq<char>) -> Map<
    u16,
    Seq<char>,
> {
    if m.contains_key(port) {
        m
    } else {
        m.insert(port, label)
    }
}

/// `m` with the service type as the label of the sighting's port, unless the sighting has
/// no port or the port has a label already.
pub open spec fn with_service_port(m: Map<u16, Seq<char>>, s: ServiceView) -> Map<
    u16,
    Seq<char>,
> {
    match s.port {
        Some(p) => with_port(m, p, s.service_type),
        None => m,
    }
}

/// The record that the sighting `s` founds, before its description is written. The details
/// of the sighting are read first and its own port is added after them: where a line of the
/// details gives that port a label, that label stays, and the service type labels the port
/// only where no line did.
pub open spec fn founded(s: ServiceView) -> ConsolidatedView {
    let start = ConsolidatedView {
        name: s.name,
        address: s.address,
        port: s.port,
        hostname: None,
        device_type: Some(guessed_device_type(s.service_type)),
        discovery_methods: seq![s.discovery_method],
        service_types: seq![s.service_type],
        open_ports: Map::<u16, Seq<char>>::empty(),
        uuid: None,
        location_url: None,
        server_info: None,
        friendly_description: Seq::<char>::empty(),
    };
    let harvested = seeded_lines(start, detail_lines(s.details));
    ConsolidatedView { open_ports: with_service_port(harvested.open_ports, s), ..harvested }
}

/// The description of the record `c`, with the given detail lines.
pub open spec fn described(c: ConsolidatedView, details: Seq<Seq<char>>) -> ConsolidatedView {
    ConsolidatedView {
        friendly_description: description_text(
            c.name,
            c.address,
            c.port,
            c.hostname,
            c.device_type,
            c.open_ports,
            details,
        ),
        ..c
    }
}

/// The record that the sighting `s` founds.
pub open spec fn created(s: ServiceView) -> ConsolidatedView {
    described(founded(s), Seq::<Seq<char>>::empty())
}

/// `tags` with `tag` at its end, unless `tag` is in it already.
pub open spec fn with_tag(tags: Seq<Seq<char>>, tag: Seq<char>) -> Seq<Seq<char>> {
    if tags.contains(tag) {
        tags
    } else {
        tags.push(tag)
    }
}

/// A record and the detail lines harvested so far from the sighting that is being merged
/// into it.
pub ghost struct Merging {
    pub record: ConsolidatedView,
    pub details: Seq<Seq<char>>,
}

/// `field`, or `value` where `field` is not set.
pub open spec fn or_set(field: Option<Seq<char>>, value: Seq<char>) -> Option<Seq<char>> {
    match field {
        Some(_) => field,
        None => Some(value),
    }
}

/// The state `m` after one line of the details of a later sighting. A line that names the
/// host, the UUID, the location or the server fills that field if it is not set; a detail
/// line is kept, without the white space around it; any other line that reports a port
/// gives that port its label, unless the port has one already.
pub open spec fn merged_line(m: Merging, line: Seq<char>) -> Merging {
    let c = m.record;
    if is_host_line(line) {
        Merging {
            record: ConsolidatedView {
                hostname: or_set(c.hostname, field_value(line)),
                ..c
            },
            ..m
        }
    } else if starts_with(line, "UUID:"@) {
        Merging {
            record: ConsolidatedView { uuid: or_set(c.uuid, field_value(line)), ..c },
            ..m
        }
    } else if starts_with(line, "Location:"@) {
        Merging {
            record: ConsolidatedView {
                location_url: or_set(c.location_url, field_value(line)),
                ..c
            },
            ..m
        }
    } else if starts_with(line, "Server:"@) {
        Merging {
            record: ConsolidatedView {
                server_info: or_set(c.server_info, field_value(line)),
                ..c
            },
            ..m
        }
    } else if is_detail_line(line) {
        Merging { details: m.details.push(trim(line)), ..m }
    } else {
        match line_port(line) {
            Some((p, label)) => Merging {
                record: ConsolidatedView { open_ports: with_port(c.open_ports, p, label), ..c },
                ..m
            },
            None => m,
        }
    }
}

/// The state `m` after the lines of the details of a later sighting.
pub open spec fn merged_lines(m: Merging, all: Seq<Seq<char>>) -> Merging
    decreases all.len(),
{
    if all.len() == 0 {
        m
    } else {
        merged_line(merged_lines(m, all.drop_last()), all.last())
    }
}

/// The record `c` with the tags and the port of the sighting `s`, before the details of
/// `s` are read.
pub open spec fn tagged(c: ConsolidatedView, s: ServiceView) -> ConsolidatedView {
    ConsolidatedView {
        discovery_methods: with_tag(c.discovery_methods, s.discovery_method),
        service_types: with_tag(c.service_types, s.service_type),
        open_ports: with_service_port(c.open_ports, s),
        ..c
    }
}

/// The record `c` after the sighting `s` was merged into it.
pub open spec fn updated(c: ConsolidatedView, s: ServiceView) -> ConsolidatedView {
    let m = merged_lines(
        Merging { record: tagged(c, s), details: Seq::<Seq<char>>::empty() },
        detail_lines(s.details),
    );
    described(m.record, m.details)
}

/// Whether the line names the host.
fn names_host(line: &[char]) -> (r: bool)
    ensures
        r == is_host_line(line@),
{
    starts_with_str(line, "Host:") || starts_with_str(line, "Hostname:")
}

/// Whether the line is one that is kept as a detail.
fn is_detail(line: &[char]) -> (r: bool)
    ensures
        r == is_detail_line(line@),
{
    starts_with_str(line, "Model:") || starts_with_str(line, "Manufacturer:") || starts_with_str(
        line,
        "Device Type:",
    ) || starts_with_str(line, "Service Type:")
}

/// The value of a line that begins with a key and a colon.
fn field_value_of(line: &[char]) -> (r: String)
    ensures
        r@ == field_value(line@),
{
    match find_char(line, ':') {
        Some(i) => {
            let after = slice_subrange(line, i + 1, line.len());
            assert(after@ =~= line@.skip(i + 1));
            to_text(trim_chars(after))
        },
        None => String::new(),
    }
}

/// The open port that the line reports, with its label, if it reports one.
fn line_port_of(line: &[char]) -> (r: Option<(u16, String)>)
    ensures
        match r {
            Some((p, label)) => line_port(line@) == Some((p, label@)),
            None => line_port(line@) is None,
        },
{
    let colon = find_char(line, ':');
    if contains_str(line, "://") && colon.is_some() {
        let parts = split_chars(line, ':');
        let last = parts.len() - 1;
        assert(views(parts@).last() == parts[last as int]@);
        match parse_u16(trim_chars(parts[last].as_slice())) {
            Some(p) => Some((p, "Web Interface".to_string())),
            None => None,
        }
    } else if colon.is_some() && !starts_with_str(line, "IP:") && !starts_with_str(line, "Type:")
        && !starts_with_str(line, "USN:") && !starts_with_str(line, "Full Name:") {
        let i = colon.unwrap();
        let before = slice_subrange(line, 0, i);
        let after = slice_subrange(line, i + 1, line.len());
        assert(before@ =~= line@.take(i as int));
        assert(after@ =~= line@.skip(i + 1));
        match parse_u16(trim_chars(after)) {
            Some(p) => Some((p, to_text(trim_chars(before)))),
            None => None,
        }
    } else {
        None
    }
}

/// Gives `port` the label `label` in `m`.
fn set_port(m: &mut HashMap<u16, String>, port: u16, label: String)
    ensures
        labels(final(m)@) == labels(old(m)@).insert(port, label@),
{
    m.insert(port, label);
    assert(labels(m@) =~= labels(old(m)@).insert(port, label@));
}

/// Gives `port` the label `label` in `m`, unless `port` has a label there already.
fn add_port(m: &mut HashMap<u16, String>, port: u16, label: String)
    ensures
        labels(final(m)@) == with_port(labels(old(m)@), port, label@),
{
    if !m.contains_key(&port) {
        set_port(m, port, label);
    }
}

/// Reads one line of the details of the sighting that founds `c`.
fn seed_line(c: &mut ConsolidatedService, line: &[char])
    ensures
        final(c)@ == seeded_line(old(c)@, line@),
{
    if names_host(line) {
        c.hostname = Some(field_value_of(line));
    } else if starts_with_str(line, "UUID:") {
        c.uuid = Some(field_value_of(line));
    } else if starts_with_str(line, "Location:") {
        c.location_url = Some(field_value_of(line));
    } else if starts_with_str(line, "Server:") {
        c.server_info = Some(field_value_of(line));
    } else {
        match line_port_of(line) {
            Some((p, label)) => {
                set_port(&mut c.open_ports, p, label);
            },
            None => {},
        }
    }
}

/// `s` without the dots at its end.
fn strip_final_dots(s: &[char]) -> (out: &[char])
    ensures
        out@ == without_final_dots(s@),
{
    let mut end: usize = s.len();
    assert(s@.subrange(0, s@.len() as int) =~= s@);
    while end > 0 && s[end - 1] == '.'
        invariant
            end <= s.len(),
            without_final_dots(s@) == without_final_dots(s@.subrange(0, end as int)),
        decreases end,
    {
        assert(s@.subrange(0, end as int).drop_last() =~= s@.subrange(0, end - 1));
        end -= 1;
    }
    slice_subrange(s, 0, end)
}

/// The device type that a service type suggests.
fn guess_device_type(service_type: &str) -> (out: String)
    ensures
        out@ == guessed_device_type(service_type@),
{
    let chars = to_chars(service_type);
    if find_char(chars.as_slice(), '_').is_some() && find_char(chars.as_slice(), '.').is_some() {
        let parts = split_chars(chars.as_slice(), '_');
        if parts.len() > 1 {
            assert(views(parts@)[1] == parts[1]@);
            to_text(strip_final_dots(parts[1].as_slice()))
        } else {
            let unknown = to_chars("unknown");
            to_text(strip_final_dots(unknown.as_slice()))
        }
    } else {
        to_text(chars.as_slice())
    }
}

/// The record that the sighting `service` founds.
pub fn create_consolidated_service(service: &NetworkService) -> (c: ConsolidatedService)
    ensures
        c@ == created(service@),
        c@.wf(),
{
    proof {
        lemma_tags_stay_distinct(created(service@), service@);
    }
    let mut methods: Vec<String> = Vec::new();
    methods.push(service.discovery_method.clone());
    let mut types: Vec<String> = Vec::new();
    types.push(service.service_type.clone());
    let mut c = ConsolidatedService {
        name: service.name.clone(),
        address: service.address.clone(),
        port: service.port,
        hostname: None,
        device_type: Some(guess_device_type(service.service_type.as_str())),
        discovery_methods: methods,
        service_types: types,
        open_ports: HashMap::new(),
        uuid: None,
        location_url: None,
        server_info: None,
        friendly_description: String::new(),
    };
    let ghost start = c@;
    assert(start.discovery_methods =~= seq![service@.discovery_method]);
    assert(start.service_types =~= seq![service@.service_type]);
    assert(start.open_ports =~= Map::<u16, Seq<char>>::empty());
    match &service.details {
        Some(d) => {
            let chars = to_chars(d.as_str());
            let all = split_lines(chars.as_slice());
            let mut i: usize = 0;
            assert(views(all@).take(0) =~= Seq::<Seq<char>>::empty());
            while i < all.len()
                invariant
                    i <= all.len(),
                    c@ == seeded_lines(start, views(all@).take(i as int)),
                decreases all.len() - i,
            {
                assert(views(all@).take(i + 1).drop_last() =~= views(all@).take(i as int));
                assert(views(all@).take(i + 1).last() == all[i as int]@);
                seed_line(&mut c, all[i].as_slice());
                i += 1;
            }
            assert(views(all@).take(i as int) =~= views(all@));
        },
        None => {},
    }
    match service.port {
        Some(p) => {
            add_port(&mut c.open_ports, p, service.service_type.clone());
        },
        None => {},
    }
    assert(c@ == founded(service@));
    let none: Vec<String> = Vec::new();
    assert(texts(none@) =~= Seq::<Seq<char>>::empty());
    let description = create_friendly_description(
        c.name.as_str(),
        c.address.as_str(),
        c.port,
        &c.hostname,
        &c.device_type,
        &c.open_ports,
        none.as_slice(),
    );
    c.friendly_description = description;
    c
}

/// Whether `tag` is one of `tags`.
fn has_tag(tags: &Vec<String>, tag: &String) -> (r: bool)
    ensures
        r == texts(tags@).contains(tag@),
{
    let mut i: usize = 0;
    while i < tags.len()
        invariant
            i <= tags.len(),
            forall|j: int| 0 <= j < i ==> tags[j]@ != tag@,
        decreases tags.len() - i,
    {
        if tags[i] == *tag {
            assert(texts(tags@)[i as int] == tag@);
            return true;
        }
        i += 1;
    }
    assert forall|j: int| 0 <= j < texts(tags@).len() implies texts(tags@)[j] != tag@ by {
        assert(texts(tags@)[j] == tags[j]@);
    }
    false
}

/// Puts `tag` at the end of `tags`, unless it is there already.
fn add_tag(tags: &mut Vec<String>, tag: &String)
    ensures
        texts(final(tags)@) == with_tag(texts(old(tags)@), tag@),
{
    if !has_tag(tags, tag) {
        tags.push(tag.clone());
        assert(texts(tags@) =~= texts(old(tags)@).push(tag@));
    }
}

/// Reads one line of the details of a later sighting of the address of `c`; `details`
/// collects the detail lines.
fn merge_line(c: &mut ConsolidatedService, details: &mut Vec<String>, line: &[char])
    ensures
        (Merging { record: final(c)@, details: texts(final(details)@) }) == merged_line(
            Merging { record: old(c)@, details: texts(old(details)@) },
            line@,
        ),
{
    if names_host(line) {
        if c.hostname.is_none() {
            c.hostname = Some(field_value_of(line));
        }
    } else if starts_with_str(line, "UUID:") {
        if c.uuid.is_none() {
            c.uuid = Some(field_value_of(line));
        }
    } else if starts_with_str(line, "Location:") {
        if c.location_url.is_none() {
            c.location_url = Some(field_value_of(line));
        }
    } else if starts_with_str(line, "Server:") {
        if c.server_info.is_none() {
            c.server_info = Some(field_value_of(line));
        }
    } else if is_detail(line) {
        details.push(to_text(trim_chars(line)));
        assert(texts(details@) =~= texts(old(details)@).push(trim(line@)));
    } else {
        match line_port_of(line) {
            Some((p, label)) => {
                add_port(&mut c.open_ports, p, label);
            },
            None => {},
        }
    }
}

/// Merges the sighting `service` into the record `consolidated`, which stands for the same
/// address.
pub fn update_consolidated_service(consolidated: &mut ConsolidatedService, service: &NetworkService)
    ensures
        final(consolidated)@ == updated(old(consolidated)@, service@),
        old(consolidated)@.wf() ==> final(consolidated)@.wf(),
{
    proof {
        if consolidated@.wf() {
            lemma_tags_stay_distinct(consolidated@, service@);
        }
    }
    add_tag(&mut consolidated.discovery_methods, &service.discovery_method);
    add_tag(&mut consolidated.service_types, &service.service_type);
    match service.port {
        Some(p) => {
            add_port(&mut consolidated.open_ports, p, service.service_type.clone());
        },
        None => {},
    }
    let ghost start = Merging {
        record: tagged(old(consolidated)@, service@),
        details: Seq::<Seq<char>>::empty(),
    };
    let mut details: Vec<String> = Vec::new();
    assert(texts(details@) =~= Seq::<Seq<char>>::empty());
    assert(consolidated@ == start.record);
    match &service.details {
        Some(d) => {
            let chars = to_chars(d.as_str());
            let all = split_lines(chars.as_slice());
            let mut i: usize = 0;
            assert(views(all@).take(0) =~= Seq::<Seq<char>>::empty());
            while i < all.len()
                invariant
                    i <= all.len(),
                    (Merging { record: consolidated@, details: texts(details@) }) == merged_lines(
                        start,
                        views(all@).take(i as int),
                    ),
                decreases all.len() - i,
            {
                assert(views(all@).take(i + 1).drop_last() =~= views(all@).take(i as int));
                assert(views(all@).take(i + 1).last() == all[i as int]@);
                merge_line(consolidated, &mut details, all[i].as_slice());
                i += 1;
            }
            assert(views(all@).take(i as int) =~= views(all@));
        },
        None => {},
    }
    let description = create_friendly_description(
        consolidated.name.as_str(),
        consolidated.address.as_str(),
        consolidated.port,
        &consolidated.hostname,
        &consolidated.device_type,
        &consolidated.open_ports,
        details.as_slice(),
    );
    consolidated.friendly_description = description;
}

/// The open port that a line of the details of a later sighting adds, with its label, if
/// the line is one that is read for a port.
pub open spec fn merged_port(line: Seq<char>) -> Option<(u16, Seq<char>)> {
    if is_host_line(line) || starts_with(line, "UUID:"@) || starts_with(line, "Location:"@)
        || starts_with(line, "Server:"@) || is_detail_line(line) {
        None
    } else {
        line_port(line)
    }
}

/// Reading the details of a later sighting takes no port away and changes no label, and
/// each port that a line adds has a label afterwards.
pub proof fn lemma_merged_lines_grow(m: Merging, all: Seq<Seq<char>>)
    ensures
        forall|p: u16| #[trigger]
            m.record.open_ports.contains_key(p) ==> merged_lines(
                m,
                all,
            ).record.open_ports.contains_key(p) && merged_lines(m, all).record.open_ports[p]
                == m.record.open_ports[p],
        forall|i: int|
            0 <= i < all.len() && merged_port(#[trigger] all[i]) is Some ==> merged_lines(
                m,
                all,
            ).record.open_ports.contains_key(merged_port(all[i]).unwrap().0),
        m.record.hostname is Some ==> merged_lines(m, all).record.hostname == m.record.hostname,
        m.record.uuid is Some ==> merged_lines(m, all).record.uuid == m.record.uuid,
        m.record.location_url is Some ==> merged_lines(m, all).record.location_url
            == m.record.location_url,
        m.record.server_info is Some ==> merged_lines(m, all).record.server_info
            == m.record.server_info,
    decreases all.len(),
{
    if all.len() > 0 {
        let before = all.drop_last();
        lemma_merged_lines_grow(m, before);
        let mid = merged_lines(m, before);
        let end = merged_lines(m, all);
        assert(end == merged_line(mid, all.last()));
        assert forall|i: int|
            0 <= i < all.len() && merged_port(#[trigger] all[i]) is Some implies end.record.open_ports.contains_key(
            merged_port(all[i]).unwrap().0,
        ) by {
            if i < all.len() - 1 {
                assert(before[i] == all[i]);
                assert(mid.record.open_ports.contains_key(merged_port(before[i]).unwrap().0));
            }
        }
    }
}

/// Where each port that the lines add has a label already, reading them changes no open
/// port.
pub proof fn lemma_merged_lines_keep_ports(m: Merging, all: Seq<Seq<char>>)
    requires
        forall|i: int|
            0 <= i < all.len() && merged_port(#[trigger] all[i]) is Some
                ==> m.record.open_ports.contains_key(merged_port(all[i]).unwrap().0),
    ensures
        merged_lines(m, all).record.open_ports == m.record.open_ports,
    decreases all.len(),
{
    if all.len() > 0 {
        let before = all.drop_last();
        assert forall|i: int|
            0 <= i < before.len() && merged_port(#[trigger] before[i]) is Some implies m.record.open_ports.contains_key(
        merged_port(before[i]).unwrap().0) by {
            assert(before[i] == all[i]);
        }
        lemma_merged_lines_keep_ports(m, before);
        assert(all.last() == all[all.len() - 1]);
    }
}

/// Merging a sighting into a record takes no open port away and changes the label of
/// none: the first label that a port was given stays. The tags that the record had stay
/// in their places, and a host name, UUID, location or server that was set stays as it was.
pub proof fn lemma_update_keeps_what_is_known(c: ConsolidatedView, s: ServiceView)
    ensures
        forall|p: u16| #[trigger]
            c.open_ports.contains_key(p) ==> updated(c, s).open_ports.contains_key(p) && updated(
                c,
                s,
            ).open_ports[p] == c.open_ports[p],
        c.discovery_methods.is_prefix_of(updated(c, s).discovery_methods),
        c.service_types.is_prefix_of(updated(c, s).service_types),
        c.hostname is Some ==> updated(c, s).hostname == c.hostname,
        c.uuid is Some ==> updated(c, s).uuid == c.uuid,
        c.location_url is Some ==> updated(c, s).location_url == c.location_url,
        c.server_info is Some ==> updated(c, s).server_info == c.server_info,
{
    let start = Merging { record: tagged(c, s), details: Seq::<Seq<char>>::empty() };
    lemma_merged_lines_grow(start, detail_lines(s.details));
    lemma_merged_lines_tags(start, detail_lines(s.details));
    assert forall|p: u16| #[trigger] c.open_ports.contains_key(p) implies updated(
        c,
        s,
    ).open_ports.contains_key(p) && updated(c, s).open_ports[p] == c.open_ports[p] by {
        assert(start.record.open_ports.contains_key(p));
        assert(start.record.open_ports[p] == c.open_ports[p]);
    }
}

/// Reading the details of a later sighting changes no tag.
pub proof fn lemma_merged_lines_tags(m: Merging, all: Seq<Seq<char>>)
    ensures
        merged_lines(m, all).record.discovery_methods == m.record.discovery_methods,
        merged_lines(m, all).record.service_types == m.record.service_types,
    decreases all.len(),
{
    if all.len() > 0 {
        lemma_merged_lines_tags(m, all.drop_last());
    }
}

/// Merging the same sighting a second time changes neither the discovery methods, nor the
/// service types, nor the open ports of the record.
pub proof fn lemma_update_is_idempotent(c: ConsolidatedView, s: ServiceView)
    ensures
        updated(updated(c, s), s).discovery_methods == updated(c, s).discovery_methods,
        updated(updated(c, s), s).service_types == updated(c, s).service_types,
        updated(updated(c, s), s).open_ports == updated(c, s).open_ports,
{
    let all = detail_lines(s.details);
    let first = Merging { record: tagged(c, s), details: Seq::<Seq<char>>::empty() };
    let once = updated(c, s);
    lemma_merged_lines_grow(first, all);
    lemma_merged_lines_tags(first, all);
    assert(once.discovery_methods == with_tag(c.discovery_methods, s.discovery_method));
    assert(once.service_types == with_tag(c.service_types, s.service_type));
    assert(once.discovery_methods.contains(s.discovery_method)) by {
        if !c.discovery_methods.contains(s.discovery_method) {
            assert(c.discovery_methods.push(s.discovery_method)[c.discovery_methods.len() as int]
                == s.discovery_method);
        }
    }
    assert(once.service_types.contains(s.service_type)) by {
        if !c.service_types.contains(s.service_type) {
            assert(c.service_types.push(s.service_type)[c.service_types.len() as int]
                == s.service_type);
        }
    }
    match s.port {
        Some(p) => {
            assert(first.record.open_ports.contains_key(p));
            assert(once.open_ports.contains_key(p));
        },
        None => {},
    }
    let second = Merging { record: tagged(once, s), details: Seq::<Seq<char>>::empty() };
    assert(second.record.open_ports == once.open_ports);
    lemma_merged_lines_keep_ports(second, all);
    lemma_merged_lines_tags(second, all);
}

/// A tag is never listed twice: the record that a sighting founds lists each of its tags
/// once, and merging a sighting into a record that lists no tag twice gives such a record.
pub proof fn lemma_tags_stay_distinct(c: ConsolidatedView, s: ServiceView)
    ensures
        c.wf() ==> updated(c, s).wf(),
        created(s).discovery_methods == seq![s.discovery_method],
        created(s).service_types == seq![s.service_type],
        created(s).wf(),
{
    let start = Merging { record: tagged(c, s), details: Seq::<Seq<char>>::empty() };
    lemma_merged_lines_tags(start, detail_lines(s.details));
    lemma_seeded_lines_tags(
        ConsolidatedView {
            name: s.name,
            address: s.address,
            port: s.port,
            hostname: None,
            device_type: Some(guessed_device_type(s.service_type)),
            discovery_methods: seq![s.discovery_method],
            service_types: seq![s.service_type],
            open_ports: Map::<u16, Seq<char>>::empty(),
            uuid: None,
            location_url: None,
            server_info: None,
            friendly_description: Seq::<char>::empty(),
        },
        detail_lines(s.details),
    );
}

/// Reading the details of the founding sighting changes no tag.
pub proof fn lemma_seeded_lines_tags(c: ConsolidatedView, all: Seq<Seq<char>>)
    ensures
        seeded_lines(c, all).discovery_methods == c.discovery_methods,
        seeded_lines(c, all).service_types == c.service_types,
    decreases all.len(),
{
    if all.len() > 0 {
        lemma_seeded_lines_tags(c, all.drop_last());
    }
}

/// The value of a line made of a key without a colon, a colon, and a text is that text
/// without the white space around it, whatever colons the text holds.
pub proof fn lemma_field_value(key: Seq<char>, value: Seq<char>)
    requires
        !key.contains(':'),
    ensures
        field_value(key + seq![':'] + value) == trim(value),
{
    lemma_find_first_separator(key, ':', value);
}

/// A line made of a label without a colon, a colon, and a text pairs the label with the
/// port that the text writes, and pairs nothing where the text writes no port.
pub proof fn lemma_paired_port(label: Seq<char>, number: Seq<char>)
    requires
        !label.contains(':'),
    ensures
        paired_port(label + seq![':'] + number) == match parse_port(trim(number)) {
            Some(p) => Some((p, trim(label))),
            None => None::<(u16, Seq<char>)>,
        },
{
    lemma_find_first_separator(label, ':', number);
}

} // verus!
