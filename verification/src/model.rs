//! The records that discovery produces and consolidation merges.

use crate::text::texts;
use std::collections::HashMap;
use vstd::prelude::*;

verus! {

/// What an optional string holds, as a sequence of characters.
pub open spec fn opt_text(o: Option<String>) -> Option<Seq<char>> {
    match o {
        Some(s) => Some(s@),
        None => None,
    }
}

/// The labels of a port table, as sequences of characters.
pub open spec fn labels(m: Map<u16, String>) -> Map<u16, Seq<char>> {
    m.map_values(|s: String| s@)
}

/// A copy of `o`.
pub fn clone_opt(o: &Option<String>) -> (r: Option<String>)
    ensures
        opt_text(r) == opt_text(*o),
{
    match o {
        Some(s) => Some(s.clone()),
        None => None,
    }
}

/// A copy of `v`.
pub fn clone_texts(v: &Vec<String>) -> (r: Vec<String>)
    ensures
        texts(r@) == texts(v@),
{
    let mut r: Vec<String> = Vec::new();
    let mut i: usize = 0;
    while i < v.len()
        invariant
            i <= v.len(),
            r.len() == i,
            forall|j: int| 0 <= j < i ==> r[j]@ == v[j]@,
        decreases v.len() - i,
    {
        r.push(v[i].clone());
        i += 1;
    }
    assert(texts(r@) =~= texts(v@));
    r
}

/// One sighting of a service or device, as a discovery method reported it.
#[derive(Debug, PartialEq, Eq, Hash)]
pub struct NetworkService {
    pub name: String,
    pub service_type: String,
    pub address: String,
    pub port: Option<u16>,
    pub discovery_method: String,
    pub details: Option<String>,
}

/// What a `NetworkService` holds.
pub ghost struct ServiceView {
    pub name: Seq<char>,
    pub service_type: Seq<char>,
    pub address: Seq<char>,
    pub port: Option<u16>,
    pub discovery_method: Seq<char>,
    pub details: Option<Seq<char>>,
}

impl View for NetworkService {
    type V = ServiceView;

    open spec fn view(&self) -> ServiceView {
        ServiceView {
            name: self.name@,
            service_type: self.service_type@,
            address: self.address@,
            port: self.port,
            discovery_method: self.discovery_method@,
            details: opt_text(self.details),
        }
    }
}

impl Clone for NetworkService {
    fn clone(&self) -> (r: Self)
        ensures
            r@ == self@,
    {
        NetworkService {
            name: self.name.clone(),
            service_type: self.service_type.clone(),
            address: self.address.clone(),
            port: self.port,
            discovery_method: self.discovery_method.clone(),
            details: clone_opt(&self.details),
        }
    }
}

/// All that is known of one address, merged from the sightings of it.
#[derive(Debug)]
pub struct ConsolidatedService {
    pub name: String,
    pub address: String,
    pub port: Option<u16>,
    pub hostname: Option<String>,
    pub device_type: Option<String>,
    pub discovery_methods: Vec<String>,
    pub service_types: Vec<String>,
    pub open_ports: HashMap<u16, String>,
    pub uuid: Option<String>,
    pub location_url: Option<String>,
    pub server_info: Option<String>,
    pub friendly_description: String,
}

/// What a `ConsolidatedService` holds.
pub ghost struct ConsolidatedView {
    pub name: Seq<char>,
    pub address: Seq<char>,
    pub port: Option<u16>,
    pub hostname: Option<Seq<char>>,
    pub device_type: Option<Seq<char>>,
    pub discovery_methods: Seq<Seq<char>>,
    pub service_types: Seq<Seq<char>>,
    pub open_ports: Map<u16, Seq<char>>,
    pub uuid: Option<Seq<char>>,
    pub location_url: Option<Seq<char>>,
    pub server_info: Option<Seq<char>>,
    pub friendly_description: Seq<char>,
}

impl ConsolidatedView {
    /// Whether the record is well formed: it lists no discovery method and no service
    /// type twice.
    pub open spec fn wf(self) -> bool {
        self.discovery_methods.no_duplicates() && self.service_types.no_duplicates()
    }
}

impl View for ConsolidatedService {
    type V = ConsolidatedView;

    open spec fn view(&self) -> ConsolidatedView {
        ConsolidatedView {
            name: self.name@,
            address: self.address@,
            port: self.port,
            hostname: opt_text(self.hostname),
            device_type: opt_text(self.device_type),
            discovery_methods: texts(self.discovery_methods@),
            service_types: texts(self.service_types@),
            open_ports: labels(self.open_ports@),
            uuid: opt_text(self.uuid),
            location_url: opt_text(self.location_url),
            server_info: opt_text(self.server_info),
            friendly_description: self.friendly_description@,
        }
    }
}

impl Clone for ConsolidatedService {
    fn clone(&self) -> (r: Self)
        ensures
            r@ == self@,
    {
        ConsolidatedService {
            name: self.name.clone(),
            address: self.address.clone(),
            port: self.port,
            hostname: clone_opt(&self.hostname),
            device_type: clone_opt(&self.device_type),
            discovery_methods: clone_texts(&self.discovery_methods),
            service_types: clone_texts(&self.service_types),
            open_ports: self.open_ports.clone(),
            uuid: clone_opt(&self.uuid),
            location_url: clone_opt(&self.location_url),
            server_info: clone_opt(&self.server_info),
            friendly_description: self.friendly_description.clone(),
        }
    }
}

/// One service that a device description lists.
#[derive(Debug)]
pub struct Service {
    pub service_type: String,
    pub service_id: String,
    pub control_url: Option<String>,
    pub event_sub_url: Option<String>,
    pub scpd_url: Option<String>,
}

/// The services of a device.
#[derive(Debug)]
pub struct ServiceList {
    pub services: Vec<Service>,
}

/// The devices embedded in a device.
#[derive(Debug)]
pub struct DeviceList {
    pub devices: Vec<Device>,
}

/// A device as its description document presents it.
#[derive(Debug)]
pub struct Device {
    pub device_type: Option<String>,
    pub friendly_name: Option<String>,
    pub manufacturer: Option<String>,
    pub manufacturer_url: Option<String>,
    pub model_description: Option<String>,
    pub model_name: Option<String>,
    pub model_number: Option<String>,
    pub model_url: Option<String>,
    pub serial_number: Option<String>,
    pub udn: Option<String>,
    pub presentation_url: Option<String>,
    pub service_list: Option<ServiceList>,
    pub device_list: Option<DeviceList>,
}

/// A device description document.
#[derive(Debug)]
pub struct DeviceDescription {
    pub device: Device,
}

} // verus!
