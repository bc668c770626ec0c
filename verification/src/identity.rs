//! Player identities: a pair of 128-bit identifiers rendered as canonical
//! dashed hex strings (8-4-4-4-12). The online identity is extracted from the
//! lookup service's JSON response; the offline identity is derived from the
//! player name alone by an MD5 digest with the version-3 / variant-2 bit
//! patches applied.

use vstd::prelude::*;

use crate::ScanError;
use crate::bytes::{append_bytes, offline_prefix, offline_prefix_vec};

verus! {

/// The two candidate identities for one player, both in canonical dashed
/// hex form.
#[derive(Debug)]
pub struct PlayerUuid {
    pub online: Vec<u8>,
    pub offline: Vec<u8>,
}

/// Canonical dashing of a 32-hex-digit identity: slices at offsets
/// 0, 8, 12, 16, 20, 32 joined by `-` (byte 45).
pub open spec fn spec_dash(s: Seq<u8>) -> Seq<u8> {
    s.subrange(0, 8) + seq![45u8] + s.subrange(8, 12) + seq![45u8] + s.subrange(12, 16)
        + seq![45u8] + s.subrange(16, 20) + seq![45u8] + s.subrange(20, 32)
}

/// The inverse slicing: the dashes of a 36-byte dashed identity removed.
pub open spec fn spec_undash(t: Seq<u8>) -> Seq<u8> {
    t.subrange(0, 8) + t.subrange(9, 13) + t.subrange(14, 18) + t.subrange(19, 23)
        + t.subrange(24, 36)
}

/// Law: canonical dashing is a bijection between 32-byte identity strings
/// and their dashed forms — undashing a dashed identity restores it, and
/// so `dash(undash(dash(x))) == dash(x)`.
pub proof fn lemma_dash_round_trip(x: Seq<u8>)
    requires
        x.len() == 32,
    ensures
        spec_undash(spec_dash(x)) == x,
        spec_dash(spec_undash(spec_dash(x))) == spec_dash(x),
{
    assert(spec_undash(spec_dash(x)) =~= x);
}

/// Inserts the canonical dashes into a 32-byte identity.
pub fn dash_uuid(s: &Vec<u8>) -> (r: Vec<u8>)
    requires
        s@.len() == 32,
    ensures
        r@ == spec_dash(s@),
{
    let mut r: Vec<u8> = Vec::new();
    append_bytes(&mut r, s, 0, 8);
    r.push(45);
    append_bytes(&mut r, s, 8, 12);
    r.push(45);
    append_bytes(&mut r, s, 12, 16);
    r.push(45);
    append_bytes(&mut r, s, 16, 20);
    r.push(45);
    append_bytes(&mut r, s, 20, 32);
    proof {
        assert(r@ =~= spec_dash(s@));
    }
    r
}

/// Removes the canonical dashes from a 36-byte dashed identity.
pub fn undash_uuid(t: &Vec<u8>) -> (r: Vec<u8>)
    requires
        t@.len() == 36,
    ensures
        r@ == spec_undash(t@),
{
    let mut r: Vec<u8> = Vec::new();
    append_bytes(&mut r, t, 0, 8);
    append_bytes(&mut r, t, 9, 13);
    append_bytes(&mut r, t, 14, 18);
    append_bytes(&mut r, t, 19, 23);
    append_bytes(&mut r, t, 24, 36);
    proof {
        assert(r@ =~= spec_undash(t@));
    }
    r
}

/// The lowercase hex digit for a value below 16.
pub open spec fn hex_digit(n: u8) -> u8 {
    if n < 10 {
        (48 + n) as u8
    } else {
        (87 + n) as u8
    }
}

/// Lowercase hex encoding, two digits per byte, high nibble first.
pub open spec fn spec_hex(s: Seq<u8>) -> Seq<u8>
    decreases s.len(),
{
    if s.len() == 0 {
        Seq::empty()
    } else {
        spec_hex(s.drop_last()) + seq![hex_digit(s.last() / 16), hex_digit(s.last() % 16)]
    }
}

pub proof fn lemma_hex_len(s: Seq<u8>)
    ensures
        spec_hex(s).len() == 2 * s.len(),
    decreases s.len(),
{
    if s.len() > 0 {
        lemma_hex_len(s.drop_last());
    }
}

/// Hex-encodes a byte vector, lowercase.
pub fn hex_encode(v: &Vec<u8>) -> (r: Vec<u8>)
    ensures
        r@ == spec_hex(v@),
{
    let mut r: Vec<u8> = Vec::new();
    let mut i: usize = 0;
    while i < v.len()
        invariant
            i <= v@.len(),
            r@ == spec_hex(v@.take(i as int)),
        decreases v.len() - i,
    {
        let b = v[i];
        let hi = b / 16;
        let lo = b % 16;
        r.push(if hi < 10 { 48 + hi } else { 87 + hi });
        r.push(if lo < 10 { 48 + lo } else { 87 + lo });
        proof {
            assert(v@.take(i + 1).drop_last() =~= v@.take(i as int));
            assert(v@.take(i + 1).last() == v@[i as int]);
        }
        i += 1;
    }
    proof {
        assert(v@.take(v@.len() as int) =~= v@);
    }
    r
}

/// The two fixed bit patches that mark a digest as a version-3, variant-2
/// identifier: byte 6 becomes `(b & 0x0f) | 0x30`, byte 8 becomes
/// `(b & 0x3f) | 0x80`.
pub open spec fn spec_patch(d: Seq<u8>) -> Seq<u8>
    recommends
        d.len() == 16,
{
    d.update(6, (d[6] & 0x0f) | 0x30).update(8, (d[8] & 0x3f) | 0x80)
}

/// What the MD5 digest of a byte string is; a pure function of the bytes,
/// named rather than spelled out.
pub uninterp spec fn md5_of(data: Seq<u8>) -> Seq<u8>;

/// Relies on md5::compute: a 16-byte MD5 digest that depends on the input
/// bytes alone.
#[verifier::external_body]
fn md5_digest(data: &Vec<u8>) -> (r: Vec<u8>)
    ensures
        r@ == md5_of(data@),
        r@.len() == 16,
{
    md5::compute(data.as_slice()).0.to_vec()
}

/// The offline identity for a player name: the dashed hex form of the
/// patched MD5 digest of `OfflinePlayer:` followed by the name.
pub open spec fn spec_offline_uuid(name: Seq<u8>) -> Seq<u8> {
    spec_dash(spec_hex(spec_patch(md5_of(offline_prefix() + name))))
}

/// Law: offline identity derivation is deterministic and pure — equal names
/// yield equal offline identities, whatever else has happened.
pub proof fn lemma_offline_uuid_deterministic(a: Seq<u8>, b: Seq<u8>)
    requires
        a == b,
    ensures
        spec_offline_uuid(a) == spec_offline_uuid(b),
{
}

/// Derives the offline identity from a player name. An empty name is
/// rejected; derivation never fails otherwise.
pub fn get_offline_uuid(name: &Vec<u8>) -> (r: Result<Vec<u8>, ScanError>)
    ensures
        name@.len() == 0 <==> r == Result::<Vec<u8>, ScanError>::Err(ScanError::InvalidInput),
        name@.len() > 0 ==> r is Ok && r.unwrap()@ == spec_offline_uuid(name@),
{
    if name.len() == 0 {
        return Err(ScanError::InvalidInput);
    }
    let mut input = offline_prefix_vec();
    append_bytes(&mut input, name, 0, name.len());
    proof {
        assert(name@.subrange(0, name@.len() as int) =~= name@);
    }
    let mut digest = md5_digest(&input);
    let b6 = digest[6];
    digest.set(6, (b6 & 0x0f) | 0x30);
    let b8 = digest[8];
    digest.set(8, (b8 & 0x3f) | 0x80);
    proof {
        assert(digest@ == spec_patch(md5_of(offline_prefix() + name@)));
        lemma_hex_len(digest@);
    }
    let hexed = hex_encode(&digest);
    let dashed = dash_uuid(&hexed);
    Ok(dashed)
}

/// A 32-character identity string without dashes: hex digits only.
pub open spec fn valid_hex32(s: Seq<u8>) -> bool {
    s.len() == 32 && forall|i: int| 0 <= i < 32 ==> is_hex_char(s[i])
}

/// An ASCII hex digit: `0`-`9`, `a`-`f` or `A`-`F`.
pub open spec fn is_hex_char(c: u8) -> bool {
    (48 <= c <= 57) || (97 <= c <= 102) || (65 <= c <= 70)
}

/// Checks that a byte vector is a 32-character undashed hex identity.
pub fn is_hex32(s: &Vec<u8>) -> (r: bool)
    ensures
        r == valid_hex32(s@),
{
    if s.len() != 32 {
        return false;
    }
    let mut i: usize = 0;
    while i < 32
        invariant
            i <= 32,
            s@.len() == 32,
            forall|j: int| 0 <= j < i ==> is_hex_char(s@[j]),
        decreases 32 - i,
    {
        let c = s[i];
        let ok = (48 <= c && c <= 57) || (97 <= c && c <= 102) || (65 <= c && c <= 70);
        if !ok {
            return false;
        }
        i += 1;
    }
    true
}

/// What the `id` string field of the lookup service's JSON response body
/// holds: `None` when the body does not parse as JSON or the field is absent
/// or not a string; a pure function of the bytes.
pub uninterp spec fn profile_id_of(body: Seq<u8>) -> Option<Seq<u8>>;

/// Relies on serde_json::from_slice, serde_json::Value's str indexing and
/// Value::as_str: reads the `id` string field of a JSON document. The
/// outcome is a function of the body bytes alone.
#[verifier::external_body]
fn read_profile_id(body: &Vec<u8>) -> (r: Option<Vec<u8>>)
    ensures
        r is Some <==> profile_id_of(body@) is Some,
        r is Some ==> r.unwrap()@ == profile_id_of(body@).unwrap(),
{
    let v: serde_json::Value = match serde_json::from_slice(body.as_slice()) {
        Ok(v) => v,
        Err(_) => return None,
    };
    match v["id"].as_str() {
        Some(s) => Some(s.as_bytes().to_vec()),
        None => None,
    }
}

/// The online identity carried by a lookup response body: the canonical
/// dashed form of its `id` field, provided that field is a 32-digit hex
/// string.
pub open spec fn spec_online_uuid(body: Seq<u8>) -> Option<Seq<u8>> {
    match profile_id_of(body) {
        Option::Some(id) => if valid_hex32(id) {
            Option::Some(spec_dash(id))
        } else {
            Option::None
        },
        Option::None => Option::None,
    }
}

/// Extracts and dashes the online identity from the lookup service's
/// response body. Fails with `MalformedResponse` exactly when the body does
/// not carry a 32-hex-digit `id` string.
pub fn get_online_uuid(body: &Vec<u8>) -> (r: Result<Vec<u8>, ScanError>)
    ensures
        r is Ok <==> spec_online_uuid(body@) is Some,
        r is Ok ==> r.unwrap()@ == spec_online_uuid(body@).unwrap(),
        r is Err ==> r == Result::<Vec<u8>, ScanError>::Err(ScanError::MalformedResponse),
{
    match read_profile_id(body) {
        Some(id) => {
            if is_hex32(&id) {
                Ok(dash_uuid(&id))
            } else {
                Err(ScanError::MalformedResponse)
            }
        },
        None => Err(ScanError::MalformedResponse),
    }
}

/// Resolves the identity pair for one scan: the online identity from the
/// lookup response body (`None` when the lookup itself failed), the offline
/// identity derived from the name. A failure here is a failure of the whole
/// resolution: no partial pair is returned.
pub fn get_uuids(name: &Vec<u8>, body: Option<&Vec<u8>>) -> (r: Result<PlayerUuid, ScanError>)
    ensures
        name@.len() == 0 ==> r == Result::<PlayerUuid, ScanError>::Err(ScanError::InvalidInput),
        name@.len() > 0 && body is None ==> r == Result::<PlayerUuid, ScanError>::Err(
            ScanError::NetworkFailure,
        ),
        name@.len() > 0 && body is Some ==> {
            &&& r is Ok <==> spec_online_uuid(body.unwrap()@) is Some
            &&& r is Err ==> r == Result::<PlayerUuid, ScanError>::Err(ScanError::MalformedResponse)
            &&& r is Ok ==> r.unwrap().online@ == spec_online_uuid(body.unwrap()@).unwrap()
            &&& r is Ok ==> r.unwrap().offline@ == spec_offline_uuid(name@)
        },
{
    if name.len() == 0 {
        return Err(ScanError::InvalidInput);
    }
    let body_bytes = match body {
        Some(b) => b,
        None => {
            return Err(ScanError::NetworkFailure);
        },
    };
    let online = match get_online_uuid(body_bytes) {
        Ok(o) => o,
        Err(e) => {
            return Err(e);
        },
    };
    let offline = match get_offline_uuid(name) {
        Ok(o) => o,
        Err(e) => {
            return Err(e);
        },
    };
    Ok(PlayerUuid { online, offline })
}

} // verus!
