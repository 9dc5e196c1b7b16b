//! Discovery and consolidation of devices and services on a local network.
//!
//! The library holds the rules of discovery, proved against their contracts: how a
//! binding response is read, what sighting a resolved record or an answer to a search
//! gives, which hosts and ports a scan tries, how the sightings of one address are merged
//! into one record, and how the findings on the public side of the network fit together.
//! It does no input or output of its own: the caller browses, searches, probes and looks
//! up, and hands the library what came back.

pub mod commands;
pub mod log;
pub mod model;
pub mod network_scanner;
pub mod ports;
pub mod public_network;
pub mod router_discovery;
pub mod store;
pub mod text;

pub use model::{
    ConsolidatedService, Device, DeviceDescription, DeviceList, NetworkService, Service,
    ServiceList,
};
