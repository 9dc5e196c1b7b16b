//! Discovery of hosts and services on the local network, and the consolidation of what was
//! found into one record per address.

pub mod consolidation;
pub mod description;
pub mod grouping;
pub mod host_scan;
pub mod mdns;
pub mod network_map;
pub mod scan;
pub mod upnp;

pub use consolidation::{create_consolidated_service, update_consolidated_service};
pub use description::create_friendly_description;
pub use grouping::consolidate_services;
pub use network_map::{add_to_network_map, MapEntry, NetworkHost, NetworkMap};
