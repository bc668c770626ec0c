//! Locates Minecraft world directories in a filesystem snapshot and computes
//! how much time a given player has spent in each, combining evidence from an
//! online (service-resolved) identity and a locally derived offline identity.

use vstd::prelude::*;

pub mod bytes;
pub mod fstree;
pub mod identity;
pub mod playtime;
pub mod duration;
pub mod scan;

verus! {

/// The kinds of failure the scan can report.
///
/// `NetworkFailure` and `MalformedResponse` concern the online identity
/// lookup; `InvalidInput` rejects an empty player name; the remaining two are
/// scoped to a single world so a partial scan stays useful.
#[derive(Clone, Copy, Debug, PartialEq, Eq, Structural)]
pub enum ScanError {
    NetworkFailure,
    MalformedResponse,
    InvalidInput,
    FilesystemUnreadable,
    MalformedStatsFile,
}

} // verus!
