//! The world scanner and the scan pipeline: a depth-first, post-order walk
//! over a snapshot tree that classifies every directory, collects the world
//! folders it finds, and tags each with the root it came from and, when an
//! identity pair is supplied, with its aggregated play time.

use vstd::prelude::*;

use crate::ScanError;
use crate::bytes::{bytes2_view, clone_bytes, clone_path, path_prefix};
use crate::fstree::{FsDir, first_dir, first_file, lemma_first_dir_contains, lemma_first_file_contains};
use crate::identity::PlayerUuid;
use crate::playtime::{PlayTime, get_playtime, lemma_playtime_wf, playtime_wf, spec_playtime};

verus! {

/// Whether a world is a singleplayer save or a multiplayer-type one.
#[derive(Clone, Copy, Debug, PartialEq, Eq, Structural)]
pub enum GameType {
    Singleplayer,
    Multiplayer,
}

/// One discovered world: the root it was found under, its own path as
/// components from that root, its play-time record, its kind, and the
/// `active` flag reserved for a later export step.
#[derive(Debug, PartialEq)]
pub struct World {
    pub origin: Vec<Vec<u8>>,
    pub path: Vec<Vec<u8>>,
    pub playtime: Result<PlayTime, ScanError>,
    pub kind: GameType,
    pub active: bool,
}

/// The mathematical shape of a discovered world.
pub struct SpecWorld {
    pub origin: Seq<Seq<u8>>,
    pub path: Seq<Seq<u8>>,
    pub playtime: Result<PlayTime, ScanError>,
    pub kind: GameType,
    pub active: bool,
}

impl View for World {
    type V = SpecWorld;

    open spec fn view(&self) -> SpecWorld {
        SpecWorld {
            origin: bytes2_view(self.origin@),
            path: bytes2_view(self.path@),
            playtime: self.playtime,
            kind: self.kind,
            active: self.active,
        }
    }
}

/// The view of a sequence of worlds, record by record.
pub open spec fn worlds_view(s: Seq<World>) -> Seq<SpecWorld> {
    s.map_values(|w: World| w@)
}

/// A directory is a world exactly when it has a `stats` sub-directory; a
/// world with an `icon.png` file directly inside it is singleplayer, one
/// without is multiplayer.
pub open spec fn spec_classify(d: FsDir) -> Option<GameType> {
    if first_dir(d.dirs@, crate::bytes::stats_name()) is Some {
        if first_file(d.files@, crate::bytes::icon_name()) is Some {
            Option::Some(GameType::Singleplayer)
        } else {
            Option::Some(GameType::Multiplayer)
        }
    } else {
        Option::None
    }
}

/// Classifies one directory from its immediate listing alone.
pub fn classify(d: &FsDir) -> (r: Option<GameType>)
    ensures
        r == spec_classify(*d),
        r is Some <==> exists|i: int|
            0 <= i < d.dirs@.len() && d.dirs@[i].name@ == crate::bytes::stats_name(),
        r == Option::Some(GameType::Singleplayer) <==> (r is Some && exists|i: int|
            0 <= i < d.files@.len() && d.files@[i].name@ == crate::bytes::icon_name()),
{
    proof {
        lemma_first_dir_contains(d.dirs@, crate::bytes::stats_name());
        lemma_first_file_contains(d.files@, crate::bytes::icon_name());
    }
    let stats = crate::bytes::stats_name_vec();
    if crate::fstree::find_dir(&d.dirs, &stats).is_none() {
        return None;
    }
    let icon = crate::bytes::icon_name_vec();
    if crate::fstree::find_file(&d.files, &icon).is_some() {
        Some(GameType::Singleplayer)
    } else {
        Some(GameType::Multiplayer)
    }
}

/// The recursion bound: directories more than this many levels below a
/// scanned root are not visited. A deliberate heuristic against deep or
/// adversarial trees, not a derived constant.
pub const MAX_SCAN_DEPTH: u8 = 4;

/// The identity pair as sequences, or nothing when the scan only discovers
/// worlds without aggregating play time.
pub open spec fn ids_view(ids: Option<&PlayerUuid>) -> Option<(Seq<u8>, Seq<u8>)> {
    match ids {
        Option::Some(u) => Option::Some((u.online@, u.offline@)),
        Option::None => Option::None,
    }
}

/// The worlds discovered at or below one directory, visited at the given
/// depth along the given path: past the depth bound nothing; otherwise the
/// sub-directories' worlds first, in listing order, then — if the directory
/// itself classifies as a world — one record for it, its origin the path
/// with the last `depth` components removed.
pub open spec fn spec_scan(
    t: FsDir,
    path: Seq<Seq<u8>>,
    depth: int,
    ids: Option<(Seq<u8>, Seq<u8>)>,
) -> Seq<SpecWorld>
    decreases 5 - depth, 2int, 0int,
{
    if depth > MAX_SCAN_DEPTH as int {
        Seq::empty()
    } else {
        let sub = spec_scan_dirs(t.dirs@, path, depth, ids);
        match spec_classify(t) {
            Option::None => sub,
            Option::Some(kind) => sub.push(
                SpecWorld {
                    origin: path.take(path.len() - depth),
                    path: path,
                    playtime: match ids {
                        Option::None => Result::Ok(PlayTime::NoTime),
                        Option::Some(p) => spec_playtime(t, p.0, p.1),
                    },
                    kind: kind,
                    active: true,
                },
            ),
        }
    }
}

/// The concatenation, in order, of the worlds each sub-directory yields one
/// level deeper.
pub open spec fn spec_scan_dirs(
    ds: Seq<FsDir>,
    path: Seq<Seq<u8>>,
    depth: int,
    ids: Option<(Seq<u8>, Seq<u8>)>,
) -> Seq<SpecWorld>
    decreases 5 - depth, 1int, ds.len(),
{
    if depth > MAX_SCAN_DEPTH as int || ds.len() == 0 {
        Seq::empty()
    } else {
        spec_scan_dirs(ds.drop_last(), path, depth, ids) + spec_scan(
            ds.last(),
            path.push(ds.last().name@),
            depth + 1,
            ids,
        )
    }
}

/// Law: the scanner never recurses past the depth bound — every world a
/// scan at `depth` yields lies at most `MAX_SCAN_DEPTH - depth` levels below
/// the visited directory, and a scan past the bound yields nothing.
pub proof fn lemma_scan_depth_bound(
    t: FsDir,
    path: Seq<Seq<u8>>,
    depth: int,
    ids: Option<(Seq<u8>, Seq<u8>)>,
)
    ensures
        depth > MAX_SCAN_DEPTH as int ==> spec_scan(t, path, depth, ids).len() == 0,
        forall|k: int|
            0 <= k < spec_scan(t, path, depth, ids).len() ==> path.len() <= #[trigger] spec_scan(
                t,
                path,
                depth,
                ids,
            )[k].path.len() <= path.len() + (MAX_SCAN_DEPTH as int - depth),
    decreases 5 - depth, 2int, 0int,
{
    if depth <= MAX_SCAN_DEPTH as int {
        lemma_scan_dirs_depth_bound(t.dirs@, path, depth, ids);
    }
}

pub proof fn lemma_scan_dirs_depth_bound(
    ds: Seq<FsDir>,
    path: Seq<Seq<u8>>,
    depth: int,
    ids: Option<(Seq<u8>, Seq<u8>)>,
)
    ensures
        forall|k: int|
            0 <= k < spec_scan_dirs(ds, path, depth, ids).len() ==> path.len()
                < #[trigger] spec_scan_dirs(ds, path, depth, ids)[k].path.len() <= path.len() + (
            MAX_SCAN_DEPTH as int - depth),
    decreases 5 - depth, 1int, ds.len(),
{
    if depth <= MAX_SCAN_DEPTH as int && ds.len() > 0 {
        lemma_scan_dirs_depth_bound(ds.drop_last(), path, depth, ids);
        lemma_scan_depth_bound(ds.last(), path.push(ds.last().name@), depth + 1, ids);
    }
}

/// The depth-first walk shared by discovery and aggregation: `ids` absent
/// leaves every record's play time at `NoTime`, `ids` present aggregates it
/// in place.
fn scan_impl(t: &FsDir, path: &Vec<Vec<u8>>, depth: u8, ids: Option<&PlayerUuid>) -> (r: Vec<
    World,
>)
    requires
        depth as int <= path@.len(),
    ensures
        worlds_view(r@) == spec_scan(*t, bytes2_view(path@), depth as int, ids_view(ids)),
    decreases 5 - depth as int,
{
    if depth > MAX_SCAN_DEPTH {
        let r: Vec<World> = Vec::new();
        proof {
            assert(worlds_view(r@) =~= spec_scan(
                *t,
                bytes2_view(path@),
                depth as int,
                ids_view(ids),
            ));
        }
        return r;
    }
    let ghost pathv = bytes2_view(path@);
    let ghost idsv = ids_view(ids);
    let mut worlds: Vec<World> = Vec::new();
    proof {
        assert(worlds_view(worlds@) =~= spec_scan_dirs(t.dirs@.take(0), pathv, depth as int, idsv));
    }
    let mut i: usize = 0;
    while i < t.dirs.len()
        invariant
            i <= t.dirs@.len(),
            depth <= MAX_SCAN_DEPTH,
            depth as int <= path@.len(),
            pathv == bytes2_view(path@),
            idsv == ids_view(ids),
            worlds_view(worlds@) == spec_scan_dirs(
                t.dirs@.take(i as int),
                pathv,
                depth as int,
                idsv,
            ),
        decreases t.dirs@.len() - i,
    {
        let child = &t.dirs[i];
        let mut child_path = clone_path(path);
        child_path.push(clone_bytes(&child.name));
        proof {
            assert(bytes2_view(child_path@) =~= pathv.push(child.name@));
        }
        let mut sub = scan_impl(child, &child_path, depth + 1, ids);
        let ghost old_worlds = worlds@;
        let ghost subv = sub@;
        worlds.append(&mut sub);
        proof {
            assert(t.dirs@.take(i + 1).drop_last() =~= t.dirs@.take(i as int));
            assert(t.dirs@.take(i + 1).last() == t.dirs@[i as int]);
            assert(worlds_view(old_worlds + subv) =~= worlds_view(old_worlds) + worlds_view(subv));
        }
        i += 1;
    }
    proof {
        assert(t.dirs@.take(t.dirs@.len() as int) =~= t.dirs@);
    }
    let kind = match classify(t) {
        Some(kind) => kind,
        None => {
            return worlds;
        },
    };
    let playtime = match ids {
        Some(u) => get_playtime(t, u),
        None => Ok(PlayTime::NoTime),
    };
    let origin = path_prefix(path, path.len() - depth as usize);
    let own_path = clone_path(path);
    let w = World { origin, path: own_path, playtime, kind, active: true };
    let ghost before = worlds@;
    worlds.push(w);
    proof {
        assert(worlds_view(before.push(w)) =~= worlds_view(before).push(w@));
        assert(w@ == spec_scan(*t, pathv, depth as int, idsv).last());
        assert(worlds_view(worlds@) =~= spec_scan(*t, pathv, depth as int, idsv));
    }
    worlds
}

/// Discovers the worlds at or below one directory, visited at the given
/// depth along the given path. Play-time records are left at `NoTime`;
/// every record is tagged with its origin, the path with the last `depth`
/// components removed, and starts out `active`.
pub fn get_minecraft_worlds(t: &FsDir, path: &Vec<Vec<u8>>, depth: u8) -> (r: Vec<World>)
    requires
        depth as int <= path@.len(),
    ensures
        worlds_view(r@) == spec_scan(*t, bytes2_view(path@), depth as int, Option::None),
        forall|k: int|
            0 <= k < r@.len() ==> path@.len() <= #[trigger] r@[k].path@.len() <= path@.len() + (
            MAX_SCAN_DEPTH as int - depth),
        forall|k: int|
            0 <= k < r@.len() ==> bytes2_view(#[trigger] r@[k].origin@) == bytes2_view(
                path@,
            ).take(path@.len() - depth),
{
    let r = scan_impl(t, path, depth, None);
    proof {
        lemma_scan_depth_bound(*t, bytes2_view(path@), depth as int, Option::None);
        lemma_scan_origin(*t, bytes2_view(path@), depth as int, Option::None);
        assert forall|k: int|
            0 <= k < r@.len() implies path@.len() <= #[trigger] r@[k].path@.len() <= path@.len()
            + (MAX_SCAN_DEPTH as int - depth) by {
            assert(worlds_view(r@)[k] == r@[k]@);
            assert(spec_scan(*t, bytes2_view(path@), depth as int, Option::None)[k] == r@[k]@);
            assert(r@[k]@.path.len() == r@[k].path@.len());
            assert(bytes2_view(path@).len() == path@.len());
        };
        assert forall|k: int|
            0 <= k < r@.len() implies bytes2_view(#[trigger] r@[k].origin@) == bytes2_view(
            path@,
        ).take(path@.len() - depth) by {
            assert(worlds_view(r@)[k] == r@[k]@);
            assert(spec_scan(*t, bytes2_view(path@), depth as int, Option::None)[k] == r@[k]@);
            assert(bytes2_view(path@).len() == path@.len());
            assert(spec_scan(*t, bytes2_view(path@), depth as int, Option::None)[k].origin
                == bytes2_view(path@).take(bytes2_view(path@).len() - depth as int));
        };
    }
    r
}

/// The full result set of one scan: for each root, in order, the worlds
/// found under it with the root itself as origin, each enriched with its
/// aggregated play time for the identity pair.
pub open spec fn spec_pipeline(
    roots: Seq<FsDir>,
    online: Seq<u8>,
    offline: Seq<u8>,
) -> Seq<SpecWorld>
    decreases roots.len(),
{
    if roots.len() == 0 {
        Seq::empty()
    } else {
        spec_pipeline(roots.drop_last(), online, offline) + spec_scan(
            roots.last(),
            seq![roots.last().name@],
            0,
            Option::Some((online, offline)),
        )
    }
}

/// Runs the whole pipeline over a snapshot: scans every root and merges
/// each discovered world's play time under the resolved identity pair.
pub fn handle_playtime(input_folders: &Vec<FsDir>, uuids: &PlayerUuid) -> (r: Vec<World>)
    ensures
        worlds_view(r@) == spec_pipeline(input_folders@, uuids.online@, uuids.offline@),
        forall|k: int|
            0 <= k < r@.len() ==> (#[trigger] r@[k].playtime matches Result::Ok(p)
                ==> playtime_wf(p)),
{
    let mut worlds: Vec<World> = Vec::new();
    proof {
        assert(worlds_view(worlds@) =~= spec_pipeline(
            input_folders@.take(0),
            uuids.online@,
            uuids.offline@,
        ));
    }
    let mut i: usize = 0;
    while i < input_folders.len()
        invariant
            i <= input_folders@.len(),
            worlds_view(worlds@) == spec_pipeline(
                input_folders@.take(i as int),
                uuids.online@,
                uuids.offline@,
            ),
        decreases input_folders@.len() - i,
    {
        let root = &input_folders[i];
        let mut path: Vec<Vec<u8>> = Vec::new();
        path.push(clone_bytes(&root.name));
        proof {
            assert(bytes2_view(path@) =~= seq![root.name@]);
        }
        let mut sub = scan_impl(root, &path, 0, Some(uuids));
        let ghost old_worlds = worlds@;
        let ghost subv = sub@;
        worlds.append(&mut sub);
        proof {
            assert(input_folders@.take(i + 1).drop_last() =~= input_folders@.take(i as int));
            assert(input_folders@.take(i + 1).last() == input_folders@[i as int]);
            assert(worlds_view(old_worlds + subv) =~= worlds_view(old_worlds) + worlds_view(subv));
        }
        i += 1;
    }
    proof {
        assert(input_folders@.take(input_folders@.len() as int) =~= input_folders@);
        lemma_pipeline_records_wf(input_folders@, uuids.online@, uuids.offline@);
        assert forall|k: int|
            0 <= k < worlds@.len() implies (#[trigger] worlds@[k].playtime matches Result::Ok(p)
            ==> playtime_wf(p)) by {
            assert(worlds_view(worlds@)[k] == worlds@[k]@);
            assert(spec_pipeline(input_folders@, uuids.online@, uuids.offline@)[k]
                == worlds@[k]@);
            assert(spec_pipeline(input_folders@, uuids.online@, uuids.offline@)[k].playtime
                == worlds@[k].playtime);
        };
    }
    worlds
}

/// Law: every world a scan yields carries the same origin — the visited
/// path with its last `depth` components removed, which is the top-level
/// root the walk started from, not the world's deepest ancestor.
pub proof fn lemma_scan_origin(
    t: FsDir,
    path: Seq<Seq<u8>>,
    depth: int,
    ids: Option<(Seq<u8>, Seq<u8>)>,
)
    requires
        0 <= depth <= path.len(),
    ensures
        forall|k: int|
            0 <= k < spec_scan(t, path, depth, ids).len() ==> #[trigger] spec_scan(
                t,
                path,
                depth,
                ids,
            )[k].origin == path.take(path.len() - depth),
    decreases 5 - depth, 2int, 0int,
{
    if depth <= MAX_SCAN_DEPTH as int {
        lemma_scan_dirs_origin(t.dirs@, path, depth, ids);
    }
}

pub proof fn lemma_scan_dirs_origin(
    ds: Seq<FsDir>,
    path: Seq<Seq<u8>>,
    depth: int,
    ids: Option<(Seq<u8>, Seq<u8>)>,
)
    requires
        0 <= depth <= path.len(),
    ensures
        forall|k: int|
            0 <= k < spec_scan_dirs(ds, path, depth, ids).len() ==> #[trigger] spec_scan_dirs(
                ds,
                path,
                depth,
                ids,
            )[k].origin == path.take(path.len() - depth),
    decreases 5 - depth, 1int, ds.len(),
{
    if depth <= MAX_SCAN_DEPTH as int && ds.len() > 0 {
        lemma_scan_dirs_origin(ds.drop_last(), path, depth, ids);
        let child_path = path.push(ds.last().name@);
        lemma_scan_origin(ds.last(), child_path, depth + 1, ids);
        assert(child_path.take(child_path.len() - (depth + 1)) =~= path.take(
            path.len() - depth,
        ));
    }
}

/// Every record a scan yields keeps the play-time invariant: a tagged tick
/// count is never zero.
pub proof fn lemma_scan_records_wf(
    t: FsDir,
    path: Seq<Seq<u8>>,
    depth: int,
    ids: Option<(Seq<u8>, Seq<u8>)>,
)
    ensures
        forall|k: int|
            0 <= k < spec_scan(t, path, depth, ids).len() ==> (#[trigger] spec_scan(
                t,
                path,
                depth,
                ids,
            )[k].playtime matches Result::Ok(p) ==> playtime_wf(p)),
    decreases 5 - depth, 2int, 0int,
{
    if depth <= MAX_SCAN_DEPTH as int {
        lemma_scan_dirs_records_wf(t.dirs@, path, depth, ids);
        match ids {
            Option::Some(p) => lemma_playtime_wf(t, p.0, p.1),
            Option::None => {},
        }
    }
}

pub proof fn lemma_scan_dirs_records_wf(
    ds: Seq<FsDir>,
    path: Seq<Seq<u8>>,
    depth: int,
    ids: Option<(Seq<u8>, Seq<u8>)>,
)
    ensures
        forall|k: int|
            0 <= k < spec_scan_dirs(ds, path, depth, ids).len() ==> (#[trigger] spec_scan_dirs(
                ds,
                path,
                depth,
                ids,
            )[k].playtime matches Result::Ok(p) ==> playtime_wf(p)),
    decreases 5 - depth, 1int, ds.len(),
{
    if depth <= MAX_SCAN_DEPTH as int && ds.len() > 0 {
        lemma_scan_dirs_records_wf(ds.drop_last(), path, depth, ids);
        lemma_scan_records_wf(ds.last(), path.push(ds.last().name@), depth + 1, ids);
    }
}

/// Law: no record the pipeline returns breaks the play-time invariant — a
/// tick count of zero is only ever reported as `NoTime`, never tagged.
pub proof fn lemma_pipeline_records_wf(roots: Seq<FsDir>, online: Seq<u8>, offline: Seq<u8>)
    ensures
        forall|k: int|
            0 <= k < spec_pipeline(roots, online, offline).len() ==> (#[trigger] spec_pipeline(
                roots,
                online,
                offline,
            )[k].playtime matches Result::Ok(p) ==> playtime_wf(p)),
    decreases roots.len(),
{
    if roots.len() > 0 {
        lemma_pipeline_records_wf(roots.drop_last(), online, offline);
        lemma_scan_records_wf(
            roots.last(),
            seq![roots.last().name@],
            0,
            Option::Some((online, offline)),
        );
    }
}

/// Law: the pipeline is a pure function of the snapshot and the identity
/// pair — two runs against an unchanged snapshot and unchanged identities
/// yield identical result sets.
pub proof fn lemma_pipeline_idempotent(
    roots: Seq<FsDir>,
    online: Seq<u8>,
    offline: Seq<u8>,
    r1: Seq<SpecWorld>,
    r2: Seq<SpecWorld>,
)
    requires
        r1 == spec_pipeline(roots, online, offline),
        r2 == spec_pipeline(roots, online, offline),
    ensures
        r1 == r2,
{
}

} // verus!
