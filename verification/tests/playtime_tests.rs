use mc_playtime::ScanError;
use mc_playtime::fstree::{FsDir, FsFile};
use mc_playtime::identity::PlayerUuid;
use mc_playtime::playtime::{PlayTime, get_playtime, merge_playtime};

fn test_uuids() -> PlayerUuid {
    PlayerUuid {
        online: b"11111111-1111-1111-1111-111111111111".to_vec(),
        offline: b"22222222-2222-2222-2222-222222222222".to_vec(),
    }
}

fn world_with_stats(files: Vec<FsFile>) -> FsDir {
    FsDir {
        name: b"world".to_vec(),
        files: Vec::new(),
        dirs: vec![FsDir { name: b"stats".to_vec(), files, dirs: Vec::new() }],
    }
}

fn online_file(contents: &[u8]) -> FsFile {
    FsFile {
        name: b"11111111-1111-1111-1111-111111111111.json".to_vec(),
        contents: Some(contents.to_vec()),
    }
}

fn offline_file(contents: &[u8]) -> FsFile {
    FsFile {
        name: b"22222222-2222-2222-2222-222222222222.json".to_vec(),
        contents: Some(contents.to_vec()),
    }
}

#[test]
fn online_file_only() {
    let dir = world_with_stats(vec![online_file(
        br#"{"stats":{"minecraft:custom":{"minecraft:play_time":400}}}"#,
    )]);
    assert_eq!(get_playtime(&dir, &test_uuids()), Ok(PlayTime::Online(400)));
}

#[test]
fn offline_file_only_legacy_key() {
    let dir = world_with_stats(vec![offline_file(
        br#"{"stats":{"minecraft:custom":{"minecraft:play_one_minute":1200}}}"#,
    )]);
    assert_eq!(get_playtime(&dir, &test_uuids()), Ok(PlayTime::Offline(1200)));
}

#[test]
fn both_files_mixed() {
    let dir = world_with_stats(vec![
        online_file(br#"{"stats":{"minecraft:custom":{"minecraft:play_time":200}}}"#),
        offline_file(br#"{"stats":{"minecraft:custom":{"minecraft:play_time":300}}}"#),
    ]);
    assert_eq!(get_playtime(&dir, &test_uuids()), Ok(PlayTime::Mixed(500)));
}

#[test]
fn online_file_with_zero_keys() {
    let dir = world_with_stats(vec![online_file(br#"{"stats":{"minecraft:custom":{}}}"#)]);
    assert_eq!(get_playtime(&dir, &test_uuids()), Ok(PlayTime::NoTime));
}

#[test]
fn neither_file_present() {
    let dir = world_with_stats(Vec::new());
    assert_eq!(get_playtime(&dir, &test_uuids()), Ok(PlayTime::NoTime));
}

#[test]
fn both_keys_are_additive() {
    let dir = world_with_stats(vec![online_file(
        br#"{"stats":{"minecraft:custom":{"minecraft:play_time":100,"minecraft:play_one_minute":23}}}"#,
    )]);
    assert_eq!(get_playtime(&dir, &test_uuids()), Ok(PlayTime::Online(123)));
}

#[test]
fn wrong_type_counts_as_zero() {
    let dir = world_with_stats(vec![online_file(
        br#"{"stats":{"minecraft:custom":{"minecraft:play_time":"lots"}}}"#,
    )]);
    assert_eq!(get_playtime(&dir, &test_uuids()), Ok(PlayTime::NoTime));
}

#[test]
fn no_stats_directory_means_no_record() {
    let dir = FsDir { name: b"world".to_vec(), files: Vec::new(), dirs: Vec::new() };
    assert_eq!(get_playtime(&dir, &test_uuids()), Ok(PlayTime::NoTime));
}

#[test]
fn unreadable_stats_file_fails_this_world() {
    let dir = world_with_stats(vec![FsFile {
        name: b"11111111-1111-1111-1111-111111111111.json".to_vec(),
        contents: None,
    }]);
    assert_eq!(get_playtime(&dir, &test_uuids()), Err(ScanError::FilesystemUnreadable));
}

#[test]
fn malformed_stats_file_fails_this_world() {
    let dir = world_with_stats(vec![online_file(b"{ this is not json")]);
    assert_eq!(get_playtime(&dir, &test_uuids()), Err(ScanError::MalformedStatsFile));
}

#[test]
fn other_players_files_are_ignored() {
    let dir = world_with_stats(vec![FsFile {
        name: b"33333333-3333-3333-3333-333333333333.json".to_vec(),
        contents: Some(br#"{"stats":{"minecraft:custom":{"minecraft:play_time":999}}}"#.to_vec()),
    }]);
    assert_eq!(get_playtime(&dir, &test_uuids()), Ok(PlayTime::NoTime));
}

#[test]
fn merge_policy_cases() {
    assert_eq!(merge_playtime(0, 0), PlayTime::NoTime);
    assert_eq!(merge_playtime(400, 0), PlayTime::Online(400));
    assert_eq!(merge_playtime(0, 1200), PlayTime::Offline(1200));
    assert_eq!(merge_playtime(200, 300), PlayTime::Mixed(500));
}

#[test]
fn merge_saturates_at_max() {
    assert_eq!(merge_playtime(u64::MAX, 1), PlayTime::Mixed(u64::MAX));
}
