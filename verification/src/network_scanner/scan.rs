//! The order of the stages of a full scan, and what becomes of their outcomes.

use crate::model::NetworkService;
use vstd::prelude::*;

verus! {

/// One stage of a full scan.
#[derive(Debug, PartialEq, Eq, Clone, Copy)]
pub enum ScanStage {
    /// Browsing for multicast services.
    Mdns,
    /// Searching for devices that describe themselves.
    Upnp,
    /// Trying the hosts of the local network.
    LocalScan,
}

/// The stage that a full scan begins with.
pub fn first_stage() -> (s: ScanStage)
    ensures
        s == ScanStage::Mdns,
{
    ScanStage::Mdns
}

/// The stage that follows `stage`, whether `stage` failed or not; none after the last.
pub fn next_stage(stage: ScanStage) -> (r: Option<ScanStage>)
    ensures
        r == match stage {
            ScanStage::Mdns => Some(ScanStage::Upnp),
            ScanStage::Upnp => Some(ScanStage::LocalScan),
            ScanStage::LocalScan => None::<ScanStage>,
        },
{
    match stage {
        ScanStage::Mdns => Some(ScanStage::Upnp),
        ScanStage::Upnp => Some(ScanStage::LocalScan),
        ScanStage::LocalScan => None,
    }
}

/// Puts the sightings of one stage behind those of the stages before it. A stage that
/// failed adds nothing and takes nothing away.
pub fn collect_stage(all: &mut Vec<NetworkService>, outcome: Result<Vec<NetworkService>, String>)
    ensures
        final(all)@ == old(all)@ + (match outcome {
            Ok(found) => found@,
            Err(_) => Seq::<NetworkService>::empty(),
        }),
{
    match outcome {
        Ok(mut found) => {
            all.append(&mut found);
        },
        Err(_) => {
            assert(all@ + Seq::<NetworkService>::empty() =~= all@);
        },
    }
}

} // verus!
