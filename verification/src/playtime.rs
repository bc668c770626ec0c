//! Play-time records and the aggregation policy: for one world, the stats
//! file of the online identity and then of the offline identity are read, in
//! that fixed order, and their tick counts merged into a single tagged
//! record.

use vstd::prelude::*;

use crate::ScanError;
use crate::bytes::{json_suffix, stats_file_name, stats_name, stats_name_vec};
use crate::fstree::{FsDir, FsFile, find_dir, find_file, first_dir, first_file};

verus! {

/// A play-time record tagged with its provenance. Ticks are counted at 20
/// per second. A zero tick count is never tagged: it collapses to `NoTime`.
#[derive(Clone, Copy, Debug, PartialEq, Eq, Structural)]
pub enum PlayTime {
    Online(u64),
    Offline(u64),
    Mixed(u64),
    NoTime,
}

/// A record never carries a zero tick count: zero collapses to `NoTime`.
pub open spec fn playtime_wf(p: PlayTime) -> bool {
    match p {
        PlayTime::Online(t) => t > 0,
        PlayTime::Offline(t) => t > 0,
        PlayTime::Mixed(t) => t > 0,
        PlayTime::NoTime => true,
    }
}

/// Addition on tick counts, capped at the largest representable count.
pub open spec fn sat_add(a: u64, b: u64) -> u64 {
    if a + b > u64::MAX {
        u64::MAX
    } else {
        (a + b) as u64
    }
}

/// Saturating addition of two tick counts.
pub fn saturating_add(a: u64, b: u64) -> (r: u64)
    ensures
        r == sat_add(a, b),
{
    if a > u64::MAX - b {
        u64::MAX
    } else {
        a + b
    }
}

/// The merge policy over the two per-identity tick sums, online first: a
/// zero sum is skipped; both nonzero make `Mixed` with the sum; one nonzero
/// keeps its own tag; none leaves `NoTime`.
pub open spec fn spec_merge(online: u64, offline: u64) -> PlayTime {
    if online > 0 && offline > 0 {
        PlayTime::Mixed(sat_add(online, offline))
    } else if online > 0 {
        PlayTime::Online(online)
    } else if offline > 0 {
        PlayTime::Offline(offline)
    } else {
        PlayTime::NoTime
    }
}

/// Merges the online and offline per-identity tick sums into one record.
pub fn merge_playtime(online: u64, offline: u64) -> (r: PlayTime)
    ensures
        r == spec_merge(online, offline),
        playtime_wf(r),
{
    if online > 0 && offline > 0 {
        PlayTime::Mixed(saturating_add(online, offline))
    } else if online > 0 {
        PlayTime::Online(online)
    } else if offline > 0 {
        PlayTime::Offline(offline)
    } else {
        PlayTime::NoTime
    }
}

/// Whether a byte string parses as a JSON document; a pure function of the
/// bytes.
pub uninterp spec fn stats_json_ok(s: Seq<u8>) -> bool;

/// What `stats.minecraft:custom.<key>` holds in a JSON document, read as an
/// unsigned integer: `None` where the path is absent or not such an
/// integer; a pure function of the bytes and the key.
pub uninterp spec fn stat_field(s: Seq<u8>, key: Seq<char>) -> Option<u64>;

/// Relies on serde_json::from_slice, serde_json::Value's str indexing and
/// Value::as_u64: parses a stats file and reads `stats.minecraft:custom.<key>`
/// as an unsigned integer. The outcome is a function of the bytes and the
/// key alone.
#[verifier::external_body]
fn read_stat_field(contents: &Vec<u8>, key: &str) -> (r: Result<Option<u64>, ScanError>)
    ensures
        r == if stats_json_ok(contents@) {
            Result::<Option<u64>, ScanError>::Ok(stat_field(contents@, key@))
        } else {
            Result::<Option<u64>, ScanError>::Err(ScanError::MalformedStatsFile)
        },
{
    let v: serde_json::Value = match serde_json::from_slice(contents.as_slice()) {
        Ok(v) => v,
        Err(_) => return Err(ScanError::MalformedStatsFile),
    };
    Ok(v["stats"]["minecraft:custom"][key].as_u64())
}

/// The current stat key, counted in ticks.
pub open spec fn play_time_key() -> Seq<char> {
    "minecraft:play_time"@
}

/// The legacy stat key, also counted in ticks; additive with the current
/// one, never an alternative.
pub open spec fn play_one_minute_key() -> Seq<char> {
    "minecraft:play_one_minute"@
}

/// A stat value read from a file: absent or mistyped fields count as zero.
pub open spec fn stat_or_zero(o: Option<u64>) -> u64 {
    match o {
        Option::Some(n) => n,
        Option::None => 0,
    }
}

/// The tick sum one identity's stats file contributes: zero when the file
/// is absent; unreadable contents or a file that is not JSON fail this
/// world's aggregation.
pub open spec fn spec_ident_ticks(fs: Seq<FsFile>, fname: Seq<u8>) -> Result<u64, ScanError> {
    match first_file(fs, fname) {
        Option::None => Result::Ok(0),
        Option::Some(f) => match f.contents {
            Option::None => Result::Err(ScanError::FilesystemUnreadable),
            Option::Some(c) => if !stats_json_ok(c@) {
                Result::Err(ScanError::MalformedStatsFile)
            } else {
                Result::Ok(
                    sat_add(
                        stat_or_zero(stat_field(c@, play_time_key())),
                        stat_or_zero(stat_field(c@, play_one_minute_key())),
                    ),
                )
            },
        },
    }
}

/// Reads one identity's tick sum from the stats directory's files.
fn ident_ticks(fs: &Vec<FsFile>, fname: &Vec<u8>) -> (r: Result<u64, ScanError>)
    ensures
        r == spec_ident_ticks(fs@, fname@),
{
    let f = match find_file(fs, fname) {
        Some(f) => f,
        None => {
            return Ok(0);
        },
    };
    let c = match &f.contents {
        Some(c) => c,
        None => {
            return Err(ScanError::FilesystemUnreadable);
        },
    };
    let current = match read_stat_field(c, "minecraft:play_time") {
        Ok(v) => v,
        Err(e) => {
            return Err(e);
        },
    };
    let legacy = match read_stat_field(c, "minecraft:play_one_minute") {
        Ok(v) => v,
        Err(e) => {
            return Err(e);
        },
    };
    let current_ticks = match current {
        Some(n) => n,
        None => 0,
    };
    let legacy_ticks = match legacy {
        Some(n) => n,
        None => 0,
    };
    Ok(saturating_add(current_ticks, legacy_ticks))
}

/// The play-time record of one world directory under the given identity
/// pair: no `stats` sub-directory means no record; otherwise the online
/// identity's file is processed first, then the offline identity's, and the
/// two sums are merged. A failure on either file is this world's failure.
pub open spec fn spec_playtime(dir: FsDir, online: Seq<u8>, offline: Seq<u8>) -> Result<
    PlayTime,
    ScanError,
> {
    match first_dir(dir.dirs@, stats_name()) {
        Option::None => Result::Ok(PlayTime::NoTime),
        Option::Some(sd) => match spec_ident_ticks(sd.files@, online + json_suffix()) {
            Result::Err(e) => Result::Err(e),
            Result::Ok(online_ticks) => match spec_ident_ticks(
                sd.files@,
                offline + json_suffix(),
            ) {
                Result::Err(e) => Result::Err(e),
                Result::Ok(offline_ticks) => Result::Ok(spec_merge(online_ticks, offline_ticks)),
            },
        },
    }
}

/// Every record the aggregator can return is well formed: a tagged value is
/// never zero.
pub proof fn lemma_playtime_wf(dir: FsDir, online: Seq<u8>, offline: Seq<u8>)
    ensures
        spec_playtime(dir, online, offline) matches Result::Ok(p) ==> playtime_wf(p),
{
}

/// Aggregates the play time of one world directory for the identity pair.
pub fn get_playtime(dir: &FsDir, uuids: &crate::identity::PlayerUuid) -> (r: Result<
    PlayTime,
    ScanError,
>)
    ensures
        r == spec_playtime(*dir, uuids.online@, uuids.offline@),
        r matches Result::Ok(p) ==> playtime_wf(p),
{
    let stats = stats_name_vec();
    let sd = match find_dir(&dir.dirs, &stats) {
        Some(sd) => sd,
        None => {
            return Ok(PlayTime::NoTime);
        },
    };
    let online_name = stats_file_name(&uuids.online);
    let online_ticks = match ident_ticks(&sd.files, &online_name) {
        Ok(n) => n,
        Err(e) => {
            return Err(e);
        },
    };
    let offline_name = stats_file_name(&uuids.offline);
    let offline_ticks = match ident_ticks(&sd.files, &offline_name) {
        Ok(n) => n,
        Err(e) => {
            return Err(e);
        },
    };
    Ok(merge_playtime(online_ticks, offline_ticks))
}

} // verus!
