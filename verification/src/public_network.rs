//! What can be learned of the public side of the network: the public address, its owner,
//! and whether it looks like a VPN, a proxy or a hosting provider.

pub mod binding;
pub mod inference;
pub mod info;

pub use inference::{
    extract_isp_from_hostname, extract_org_from_hostname, infer_location_from_asn,
    infer_location_from_hostname,
};
pub use info::infer_privacy_status;
pub use info::{GeoLocation, NetworkInfo, PublicNetworkInfo};

use crate::log::{is_logging_enabled, set_logging, LogSettings, LogSettingsView};
use vstd::prelude::*;

verus! {

/// Makes every module log, or stops that; returns `enable`.
pub fn set_network_logging(settings: &mut LogSettings, enable: bool) -> (r: bool)
    ensures
        r == enable,
        final(settings)@ == (LogSettingsView { enabled: enable, ..old(settings)@ }),
{
    set_logging(settings, enable)
}

/// Whether every module logs.
pub fn is_network_logging_enabled(settings: &LogSettings) -> (r: bool)
    ensures
        r == settings@.enabled,
{
    is_logging_enabled(settings)
}

} // verus!
