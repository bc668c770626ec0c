use mc_playtime::fstree::{FsDir, FsFile};
use mc_playtime::identity::PlayerUuid;
use mc_playtime::playtime::PlayTime;
use mc_playtime::scan::{GameType, classify, get_minecraft_worlds, handle_playtime};

fn dir(name: &[u8], files: Vec<FsFile>, dirs: Vec<FsDir>) -> FsDir {
    FsDir { name: name.to_vec(), files, dirs }
}

fn file(name: &[u8]) -> FsFile {
    FsFile { name: name.to_vec(), contents: None }
}

fn stats_dir(files: Vec<FsFile>) -> FsDir {
    dir(b"stats", files, Vec::new())
}

fn test_uuids() -> PlayerUuid {
    PlayerUuid {
        online: b"11111111-1111-1111-1111-111111111111".to_vec(),
        offline: b"22222222-2222-2222-2222-222222222222".to_vec(),
    }
}

#[test]
fn classify_singleplayer_world() {
    let d = dir(b"w", vec![file(b"icon.png")], vec![stats_dir(Vec::new())]);
    assert_eq!(classify(&d), Some(GameType::Singleplayer));
}

#[test]
fn classify_multiplayer_world() {
    let d = dir(b"w", vec![file(b"server.properties")], vec![stats_dir(Vec::new())]);
    assert_eq!(classify(&d), Some(GameType::Multiplayer));
}

#[test]
fn classify_not_a_world() {
    let d = dir(b"w", vec![file(b"icon.png")], vec![dir(b"region", Vec::new(), Vec::new())]);
    assert_eq!(classify(&d), None);
}

#[test]
fn scanner_finds_worlds_in_saves_folder() {
    let root = dir(
        b"minecraft",
        Vec::new(),
        vec![dir(
            b"saves",
            Vec::new(),
            vec![
                dir(b"alpha", vec![file(b"icon.png")], vec![stats_dir(Vec::new())]),
                dir(b"beta", Vec::new(), vec![stats_dir(Vec::new())]),
            ],
        )],
    );
    let path = vec![b"minecraft".to_vec()];
    let worlds = get_minecraft_worlds(&root, &path, 0);
    assert_eq!(worlds.len(), 2);
    assert_eq!(worlds[0].path, vec![b"minecraft".to_vec(), b"saves".to_vec(), b"alpha".to_vec()]);
    assert_eq!(worlds[0].kind, GameType::Singleplayer);
    assert_eq!(worlds[1].path, vec![b"minecraft".to_vec(), b"saves".to_vec(), b"beta".to_vec()]);
    assert_eq!(worlds[1].kind, GameType::Multiplayer);
    for w in &worlds {
        assert_eq!(w.origin, vec![b"minecraft".to_vec()]);
        assert_eq!(w.playtime, Ok(PlayTime::NoTime));
        assert!(w.active);
    }
}

#[test]
fn scanner_reports_parent_world_after_children() {
    // a directory that is both a container of a world and itself a world
    let root = dir(
        b"outer",
        Vec::new(),
        vec![
            dir(b"inner", Vec::new(), vec![stats_dir(Vec::new())]),
            stats_dir(Vec::new()),
        ],
    );
    let path = vec![b"outer".to_vec()];
    let worlds = get_minecraft_worlds(&root, &path, 0);
    assert_eq!(worlds.len(), 2);
    assert_eq!(worlds[0].path, vec![b"outer".to_vec(), b"inner".to_vec()]);
    assert_eq!(worlds[1].path, vec![b"outer".to_vec()]);
}

#[test]
fn scanner_stops_at_depth_bound() {
    // a chain of depth 10, every level holding a stats folder
    let mut d = dir(b"level9", Vec::new(), vec![stats_dir(Vec::new())]);
    for i in (0..9).rev() {
        let name = format!("level{}", i).into_bytes();
        d = FsDir {
            name,
            files: Vec::new(),
            dirs: vec![stats_dir(Vec::new()), d],
        };
    }
    let path = vec![b"level0".to_vec()];
    let worlds = get_minecraft_worlds(&d, &path, 0);
    // only the worlds at depth 0 through 4 below the root are discoverable
    assert_eq!(worlds.len(), 5);
    for w in &worlds {
        assert!(w.path.len() <= 5);
    }
}

#[test]
fn scanner_respects_initial_depth() {
    let root = dir(b"w", Vec::new(), vec![stats_dir(Vec::new())]);
    let path = vec![b"top".to_vec(), b"w".to_vec()];
    let worlds = get_minecraft_worlds(&root, &path, 1);
    assert_eq!(worlds.len(), 1);
    assert_eq!(worlds[0].origin, vec![b"top".to_vec()]);
    assert_eq!(worlds[0].path, vec![b"top".to_vec(), b"w".to_vec()]);
}

#[test]
fn pipeline_aggregates_discovered_worlds() {
    let stats = stats_dir(vec![FsFile {
        name: b"11111111-1111-1111-1111-111111111111.json".to_vec(),
        contents: Some(br#"{"stats":{"minecraft:custom":{"minecraft:play_time":400}}}"#.to_vec()),
    }]);
    let root = dir(
        b"saves",
        Vec::new(),
        vec![dir(b"alpha", vec![file(b"icon.png")], vec![stats])],
    );
    let worlds = handle_playtime(&vec![root], &test_uuids());
    assert_eq!(worlds.len(), 1);
    assert_eq!(worlds[0].playtime, Ok(PlayTime::Online(400)));
    assert_eq!(worlds[0].kind, GameType::Singleplayer);
    assert_eq!(worlds[0].origin, vec![b"saves".to_vec()]);
}

#[test]
fn pipeline_concatenates_roots_in_order() {
    let a = dir(b"rootA", Vec::new(), vec![dir(b"w1", Vec::new(), vec![stats_dir(Vec::new())])]);
    let b = dir(b"rootB", Vec::new(), vec![dir(b"w2", Vec::new(), vec![stats_dir(Vec::new())])]);
    let worlds = handle_playtime(&vec![a, b], &test_uuids());
    assert_eq!(worlds.len(), 2);
    assert_eq!(worlds[0].origin, vec![b"rootA".to_vec()]);
    assert_eq!(worlds[1].origin, vec![b"rootB".to_vec()]);
}

#[test]
fn pipeline_is_idempotent_on_a_static_snapshot() {
    let make_snapshot = || {
        vec![dir(
            b"saves",
            Vec::new(),
            vec![
                dir(b"alpha", vec![file(b"icon.png")], vec![stats_dir(vec![FsFile {
                    name: b"22222222-2222-2222-2222-222222222222.json".to_vec(),
                    contents: Some(
                        br#"{"stats":{"minecraft:custom":{"minecraft:play_one_minute":60}}}"#
                            .to_vec(),
                    ),
                }])]),
                dir(b"beta", Vec::new(), vec![stats_dir(Vec::new())]),
            ],
        )]
    };
    let first = handle_playtime(&make_snapshot(), &test_uuids());
    let second = handle_playtime(&make_snapshot(), &test_uuids());
    assert_eq!(first, second);
    assert_eq!(first[0].playtime, Ok(PlayTime::Offline(60)));
}
