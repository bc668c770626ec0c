use mc_playtime::ScanError;
use mc_playtime::identity::{
    dash_uuid, get_offline_uuid, get_online_uuid, get_uuids, is_hex32, undash_uuid,
};

#[test]
fn offline_uuid_known_value() {
    let r = get_offline_uuid(&b"penzboti".to_vec()).unwrap();
    assert_eq!(r, b"6cca26db-d8a7-3600-8902-fae2a7a1466c".to_vec());
}

#[test]
fn offline_uuid_second_known_value() {
    let r = get_offline_uuid(&b"Notch".to_vec()).unwrap();
    assert_eq!(r, b"b50ad385-829d-3141-a216-7e7d7539ba7f".to_vec());
}

#[test]
fn offline_uuid_single_char_name() {
    let r = get_offline_uuid(&b"a".to_vec()).unwrap();
    assert_eq!(r, b"52428a0e-1e30-3cb1-976c-e728b2614047".to_vec());
}

#[test]
fn offline_uuid_deterministic() {
    let a = get_offline_uuid(&b"somebody".to_vec()).unwrap();
    let b = get_offline_uuid(&b"somebody".to_vec()).unwrap();
    assert_eq!(a, b);
}

#[test]
fn offline_uuid_version_and_variant_marks() {
    let r = get_offline_uuid(&b"anyone".to_vec()).unwrap();
    assert_eq!(r.len(), 36);
    // version nibble forced to 3, variant bits to 10xx
    assert_eq!(r[14], b'3');
    assert!(matches!(r[19], b'8' | b'9' | b'a' | b'b'));
    assert_eq!(r[8], b'-');
    assert_eq!(r[13], b'-');
    assert_eq!(r[18], b'-');
    assert_eq!(r[23], b'-');
}

#[test]
fn offline_uuid_empty_name_rejected() {
    assert_eq!(get_offline_uuid(&Vec::new()), Err(ScanError::InvalidInput));
}

#[test]
fn dash_undash_round_trip() {
    let raw = b"069a79f444e94726a5befca90e38aaf5".to_vec();
    let dashed = dash_uuid(&raw);
    assert_eq!(dashed, b"069a79f4-44e9-4726-a5be-fca90e38aaf5".to_vec());
    let undashed = undash_uuid(&dashed);
    assert_eq!(undashed, raw);
    let redashed = dash_uuid(&undashed);
    assert_eq!(redashed, dashed);
}

#[test]
fn hex32_validation() {
    assert!(is_hex32(&b"069a79f444e94726a5befca90e38aaf5".to_vec()));
    assert!(is_hex32(&b"069A79F444E94726A5BEFCA90E38AAF5".to_vec()));
    assert!(!is_hex32(&b"069a79f444e94726a5befca90e38aaf".to_vec()));
    assert!(!is_hex32(&b"069a79f444e94726a5befca90e38aag5".to_vec()));
    assert!(!is_hex32(&Vec::new()));
}

#[test]
fn online_uuid_from_body() {
    let body = br#"{"id":"069a79f444e94726a5befca90e38aaf5","name":"Notch"}"#.to_vec();
    let r = get_online_uuid(&body).unwrap();
    assert_eq!(r, b"069a79f4-44e9-4726-a5be-fca90e38aaf5".to_vec());
}

#[test]
fn online_uuid_missing_id_field() {
    let body = br#"{"name":"Notch"}"#.to_vec();
    assert_eq!(get_online_uuid(&body), Err(ScanError::MalformedResponse));
}

#[test]
fn online_uuid_unparsable_body() {
    let body = b"not json at all".to_vec();
    assert_eq!(get_online_uuid(&body), Err(ScanError::MalformedResponse));
}

#[test]
fn online_uuid_id_not_32_hex() {
    let body = br#"{"id":"zz"}"#.to_vec();
    assert_eq!(get_online_uuid(&body), Err(ScanError::MalformedResponse));
}

#[test]
fn uuids_resolved_together() {
    let body = br#"{"id":"069a79f444e94726a5befca90e38aaf5"}"#.to_vec();
    let pair = get_uuids(&b"Notch".to_vec(), Some(&body)).unwrap();
    assert_eq!(pair.online, b"069a79f4-44e9-4726-a5be-fca90e38aaf5".to_vec());
    assert_eq!(pair.offline, b"b50ad385-829d-3141-a216-7e7d7539ba7f".to_vec());
}

#[test]
fn uuids_network_failure_without_body() {
    let r = get_uuids(&b"Notch".to_vec(), None);
    assert!(matches!(r, Err(ScanError::NetworkFailure)));
}

#[test]
fn uuids_empty_name_before_network() {
    let r = get_uuids(&Vec::new(), None);
    assert!(matches!(r, Err(ScanError::InvalidInput)));
}
