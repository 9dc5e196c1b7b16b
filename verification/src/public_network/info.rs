//! The picture of the public side of the network, and how each finding changes it.

use crate::model::{clone_opt, opt_text};
use crate::public_network::inference::{
    extract_isp_from_hostname, extract_org_from_hostname, first_held, infer_flags,
    inferred_flags, isp_table, lower_of, lowered, org_of, PrivacyFlags,
};
use crate::router_discovery::RouterInfo;
use crate::text::{
    join, join_chars, lowercase, split, split_chars, texts, to_chars, to_text, trim, trim_chars,
    views,
};
use vstd::prelude::*;

verus! {

/// Where an address is.
#[derive(Debug)]
pub struct GeoLocation {
    pub city: Option<String>,
    pub region: Option<String>,
    pub country: Option<String>,
    pub postal: Option<String>,
    pub timezone: Option<String>,
}

/// What a `GeoLocation` holds.
pub ghost struct LocationView {
    pub city: Option<Seq<char>>,
    pub region: Option<Seq<char>>,
    pub country: Option<Seq<char>>,
    pub postal: Option<Seq<char>>,
    pub timezone: Option<Seq<char>>,
}

impl View for GeoLocation {
    type V = LocationView;

    open spec fn view(&self) -> LocationView {
        LocationView {
            city: opt_text(self.city),
            region: opt_text(self.region),
            country: opt_text(self.country),
            postal: opt_text(self.postal),
            timezone: opt_text(self.timezone),
        }
    }
}

/// A location of which only the country is known.
pub open spec fn in_country(country: Seq<char>) -> LocationView {
    LocationView { city: None, region: None, country: Some(country), postal: None, timezone: None }
}

impl Default for GeoLocation {
    fn default() -> (r: Self)
        ensures
            r@ == (LocationView {
                city: None,
                region: None,
                country: None,
                postal: None,
                timezone: None,
            }),
    {
        GeoLocation { city: None, region: None, country: None, postal: None, timezone: None }
    }
}

/// What a location holds, if there is one.
pub open spec fn opt_location(l: Option<GeoLocation>) -> Option<LocationView> {
    match l {
        Some(g) => Some(g@),
        None => None,
    }
}

/// The picture of the public side of the network.
#[derive(Debug)]
pub struct PublicNetworkInfo {
    pub ip: Option<String>,
    pub ipv6: Option<String>,
    pub isp: Option<String>,
    pub asn: Option<String>,
    pub org: Option<String>,
    /// The host name of the public address.
    pub hostname: Option<String>,
    /// The host name of this machine.
    pub local_hostname: Option<String>,
    pub dns: Vec<String>,
    pub location: Option<GeoLocation>,
    pub router_info: Option<RouterInfo>,
    pub is_vpn: Option<bool>,
    pub is_proxy: Option<bool>,
    pub is_hosting: Option<bool>,
}

/// What a `PublicNetworkInfo` holds.
pub ghost struct InfoView {
    pub ip: Option<Seq<char>>,
    pub ipv6: Option<Seq<char>>,
    pub isp: Option<Seq<char>>,
    pub asn: Option<Seq<char>>,
    pub org: Option<Seq<char>>,
    pub hostname: Option<Seq<char>>,
    pub local_hostname: Option<Seq<char>>,
    pub dns: Seq<Seq<char>>,
    pub location: Option<LocationView>,
    pub router_info: Option<RouterInfo>,
    pub flags: PrivacyFlags,
}

impl View for PublicNetworkInfo {
    type V = InfoView;

    open spec fn view(&self) -> InfoView {
        InfoView {
            ip: opt_text(self.ip),
            ipv6: opt_text(self.ipv6),
            isp: opt_text(self.isp),
            asn: opt_text(self.asn),
            org: opt_text(self.org),
            hostname: opt_text(self.hostname),
            local_hostname: opt_text(self.local_hostname),
            dns: texts(self.dns@),
            location: opt_location(self.location),
            router_info: self.router_info,
            flags: PrivacyFlags {
                is_vpn: self.is_vpn,
                is_proxy: self.is_proxy,
                is_hosting: self.is_hosting,
            },
        }
    }
}

/// A picture in which nothing is known.
pub open spec fn nothing_known() -> InfoView {
    InfoView {
        ip: None,
        ipv6: None,
        isp: None,
        asn: None,
        org: None,
        hostname: None,
        local_hostname: None,
        dns: Seq::<Seq<char>>::empty(),
        location: None,
        router_info: None,
        flags: PrivacyFlags { is_vpn: None, is_proxy: None, is_hosting: None },
    }
}

impl Default for PublicNetworkInfo {
    fn default() -> (r: Self)
        ensures
            r@ == nothing_known(),
    {
        let r = PublicNetworkInfo {
            ip: None,
            ipv6: None,
            isp: None,
            asn: None,
            org: None,
            hostname: None,
            local_hostname: None,
            dns: Vec::new(),
            location: None,
            router_info: None,
            is_vpn: None,
            is_proxy: None,
            is_hosting: None,
        };
        assert(texts(r.dns@) =~= Seq::<Seq<char>>::empty());
        r
    }
}

/// A short picture of the network.
#[derive(Debug)]
pub struct NetworkInfo {
    pub public_ip: Option<String>,
    pub hostname: Option<String>,
    pub internet_available: Option<bool>,
    pub isp: Option<String>,
    pub location: Option<GeoLocation>,
    pub dns_servers: Vec<String>,
}

/// The labels of an address in reverse order, with dots between them.
pub open spec fn reversed_labels(ip: Seq<char>) -> Seq<char> {
    join(split(ip, '.').reverse(), "."@)
}

/// The name under which the origin of `ip` is looked up: the labels of the address in
/// reverse order under the origin zone.
pub open spec fn origin_name(ip: Seq<char>) -> Seq<char> {
    reversed_labels(ip) + ".origin.asn.cymru.com"@
}

/// The labels of an address in reverse order, with dots between them.
fn reverse_labels(ip: &str) -> (out: Vec<char>)
    ensures
        out@ == reversed_labels(ip@),
{
    let chars = to_chars(ip);
    let mut parts = split_chars(chars.as_slice(), '.');
    let ghost all = views(parts@);
    let mut turned: Vec<Vec<char>> = Vec::new();
    assert(views(turned@) =~= Seq::<Seq<char>>::empty());
    while parts.len() > 0
        invariant
            parts.len() <= all.len(),
            views(parts@) == all.take(parts.len() as int),
            views(turned@).len() + parts.len() == all.len(),
            forall|i: int|
                0 <= i < views(turned@).len() ==> views(turned@)[i] == all[all.len() - 1 - i],
        decreases parts.len(),
    {
        let ghost n = parts.len() as int;
        let ghost before = views(turned@);
        let ghost rest = views(parts@);
        let p = parts.pop().unwrap();
        assert(p@ == rest[n - 1]);
        assert(views(parts@) =~= all.take(n - 1));
        turned.push(p);
        assert(views(turned@) =~= before.push(p@));
    }
    assert(views(turned@) =~= all.reverse());
    join_chars(&turned, ".")
}

/// The name under which the origin of `ip` is looked up.
pub fn origin_query(ip: &str) -> (out: String)
    ensures
        out@ == origin_name(ip@),
{
    let mut name = reverse_labels(ip);
    crate::text::push_str(&mut name, ".origin.asn.cymru.com");
    to_text(name.as_slice())
}

/// The name under which the origin of `ip` is looked up, closed by a dot.
pub fn asn_query(ip: &str) -> (out: String)
    ensures
        out@ == origin_name(ip@) + seq!['.'],
{
    let mut name = reverse_labels(ip);
    crate::text::push_str(&mut name, ".origin.asn.cymru.com");
    name.push('.');
    to_text(name.as_slice())
}

/// The field at place `n` of an origin record, whose fields stand between bars, without
/// the white space around it.
pub open spec fn record_field(record: Seq<char>, n: int) -> Seq<char> {
    trim(split(record, '|')[n])
}

/// The number of fields of an origin record.
pub open spec fn record_fields(record: Seq<char>) -> nat {
    split(record, '|').len()
}

/// `field`, or `value` where `field` is not set.
pub open spec fn or_text(field: Option<Seq<char>>, value: Seq<char>) -> Option<Seq<char>> {
    match field {
        Some(_) => field,
        None => Some(value),
    }
}

/// The picture `v` after a record on the country of an address came in: with three fields
/// or more, the third is the country of the location, of which nothing else is known.
pub open spec fn with_geo_record(v: InfoView, record: Seq<char>) -> InfoView {
    if record_fields(record) >= 3 {
        InfoView { location: Some(in_country(record_field(record, 2))), ..v }
    } else {
        v
    }
}

/// The picture `v` after the lookup of the origin of the public address ended. Without a
/// record the origin number is empty. A record of four fields or more gives the origin
/// number, its first field; its fourth field is the organization and the provider, each
/// where none is known yet; and where `with_location` holds and no location is known,
/// its third field is the country of the location.
pub open spec fn with_asn_record(v: InfoView, record: Option<Seq<char>>, with_location: bool) -> InfoView {
    match record {
        None => InfoView { asn: Some(Seq::<char>::empty()), ..v },
        Some(r) => if record_fields(r) >= 4 {
            InfoView {
                asn: Some(record_field(r, 0)),
                org: or_text(v.org, record_field(r, 3)),
                isp: or_text(v.isp, record_field(r, 3)),
                location: if with_location && v.location is None {
                    Some(in_country(record_field(r, 2)))
                } else {
                    v.location
                },
                ..v
            }
        } else {
            v
        },
    }
}

/// `field`, or `value` where there is one.
pub open spec fn or_keep(value: Option<Seq<char>>, field: Option<Seq<char>>) -> Option<Seq<char>> {
    match value {
        Some(_) => value,
        None => field,
    }
}

/// The picture `v` after the host name of the public address was found: the host name is
/// noted, and the provider and the organization that it suggests, where it suggests any.
pub open spec fn with_reverse_dns(v: InfoView, hostname: Seq<char>) -> InfoView {
    InfoView {
        hostname: Some(hostname),
        isp: or_keep(first_held(isp_table(), lowercase(hostname)), v.isp),
        org: or_keep(org_of(hostname), v.org),
        ..v
    }
}

/// A location of which only the country is known.
fn country_only(country: String) -> (g: GeoLocation)
    ensures
        g@ == in_country(country@),
{
    GeoLocation { city: None, region: None, country: Some(country), postal: None, timezone: None }
}

/// Takes a record on the country of an address into the picture.
pub fn apply_geo_record(info: &mut PublicNetworkInfo, record: &str)
    ensures
        final(info)@ == with_geo_record(old(info)@, record@),
{
    let chars = to_chars(record);
    let parts = split_chars(chars.as_slice(), '|');
    if parts.len() >= 3 {
        assert(views(parts@)[2] == parts[2]@);
        info.location = Some(country_only(to_text(trim_chars(parts[2].as_slice()))));
    }
}

/// Whether the country of the public address still has to be looked up.
pub fn needs_geo_lookup(info: &PublicNetworkInfo) -> (r: bool)
    ensures
        r == (info@.location is None),
{
    info.location.is_none()
}

/// Takes the outcome of the lookup of the origin of the public address into the picture.
pub fn apply_asn_record(info: &mut PublicNetworkInfo, record: &Option<String>, with_location: bool)
    ensures
        final(info)@ == with_asn_record(old(info)@, opt_text(*record), with_location),
{
    match record {
        None => {
            info.asn = Some(String::new());
        },
        Some(r) => {
            let chars = to_chars(r.as_str());
            let parts = split_chars(chars.as_slice(), '|');
            if parts.len() >= 4 {
                assert(views(parts@)[0] == parts[0]@);
                assert(views(parts@)[2] == parts[2]@);
                assert(views(parts@)[3] == parts[3]@);
                info.asn = Some(to_text(trim_chars(parts[0].as_slice())));
                if info.org.is_none() {
                    info.org = Some(to_text(trim_chars(parts[3].as_slice())));
                }
                if info.isp.is_none() {
                    info.isp = Some(to_text(trim_chars(parts[3].as_slice())));
                }
                if with_location && info.location.is_none() {
                    info.location = Some(
                        country_only(to_text(trim_chars(parts[2].as_slice()))),
                    );
                }
            }
        },
    }
}

/// Takes the host name of the public address into the picture, with the provider and the
/// organization that it suggests.
pub fn apply_reverse_dns(info: &mut PublicNetworkInfo, hostname: &str)
    ensures
        final(info)@ == with_reverse_dns(old(info)@, hostname@),
{
    info.hostname = Some(hostname.to_string());
    match extract_isp_from_hostname(hostname) {
        Some(isp) => {
            info.isp = Some(isp);
        },
        None => {},
    }
    match extract_org_from_hostname(hostname) {
        Some(org) => {
            info.org = Some(org);
        },
        None => {},
    }
}

/// Whether the origin of the public address still has to be looked up: no origin number
/// is known, or an empty one.
pub fn needs_asn_lookup(info: &PublicNetworkInfo) -> (r: bool)
    ensures
        r == match info@.asn {
            Some(a) => a.len() == 0,
            None => true,
        },
{
    match &info.asn {
        Some(a) => a.as_str().is_empty(),
        None => true,
    }
}

/// Takes the public address that the router knows as the public address, where none is
/// known yet and the router knows one; returns that address where it was taken.
pub fn adopt_router_ip(info: &mut PublicNetworkInfo, router: &RouterInfo) -> (r: Option<String>)
    ensures
        opt_text(r) == if old(info)@.ip is None {
            opt_text(router.public_ip)
        } else {
            None
        },
        final(info)@ == (InfoView {
            ip: or_keep(old(info)@.ip, opt_text(router.public_ip)),
            ..old(info)@
        }),
{
    if info.ip.is_none() {
        match &router.public_ip {
            Some(ip) => {
                info.ip = Some(ip.clone());
                Some(ip.clone())
            },
            None => None,
        }
    } else {
        None
    }
}

/// The name of the provider that the router knows.
pub open spec fn router_isp(router: RouterInfo) -> Option<Seq<char>> {
    match router.isp_config {
        Some(c) => opt_text(c.isp_name),
        None => None,
    }
}

/// Takes what is known of the router into the picture; the provider that the router
/// knows is the provider where none is known yet.
pub fn apply_router_info(info: &mut PublicNetworkInfo, router: RouterInfo)
    ensures
        final(info)@ == (InfoView {
            isp: or_keep(old(info)@.isp, router_isp(router)),
            router_info: Some(router),
            ..old(info)@
        }),
{
    if info.isp.is_none() {
        match &router.isp_config {
            Some(c) => {
                info.isp = clone_opt(&c.isp_name);
            },
            None => {},
        }
    }
    info.router_info = Some(router);
}

/// The picture `v` when the search has ended: an origin number that is not known is
/// empty, and the flags say what the host name and the origin number suggest.
pub open spec fn finished(v: InfoView) -> InfoView {
    let asn = or_text(v.asn, Seq::<char>::empty());
    InfoView { asn, flags: inferred_flags(v.flags, lowered(v.hostname), lowered(asn)), ..v }
}

/// Sets the flags of the picture by what its host name and its origin number suggest.
pub fn infer_privacy_status(info: &mut PublicNetworkInfo)
    ensures
        final(info)@ == (InfoView {
            flags: inferred_flags(
                old(info)@.flags,
                lowered(old(info)@.hostname),
                lowered(old(info)@.asn),
            ),
            ..old(info)@
        }),
{
    let before = PrivacyFlags {
        is_vpn: info.is_vpn,
        is_proxy: info.is_proxy,
        is_hosting: info.is_hosting,
    };
    let lower_hostname = lower_of(&info.hostname);
    let lower_asn = lower_of(&info.asn);
    let flags = infer_flags(before, &lower_hostname, &lower_asn);
    info.is_vpn = flags.is_vpn;
    info.is_proxy = flags.is_proxy;
    info.is_hosting = flags.is_hosting;
}

/// Ends the search: an origin number that is not known becomes empty, and the flags are
/// set.
pub fn finish_info(info: &mut PublicNetworkInfo)
    ensures
        final(info)@ == finished(old(info)@),
{
    if info.asn.is_none() {
        info.asn = Some(String::new());
    }
    infer_privacy_status(info);
}

/// The host name that the output of the host name command gives: the output without the
/// white space around it, unless that is empty.
pub open spec fn hostname_in(output: Seq<char>) -> Option<Seq<char>> {
    if trim(output).len() > 0 {
        Some(trim(output))
    } else {
        None
    }
}

/// The host name that the output of the host name command gives.
pub fn hostname_from_output(output: &str) -> (r: Option<String>)
    ensures
        opt_text(r) == hostname_in(output@),
{
    let chars = to_chars(output);
    let name = trim_chars(chars.as_slice());
    if name.len() > 0 {
        Some(to_text(name))
    } else {
        None
    }
}

} // verus!
