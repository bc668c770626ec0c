//! Byte-string helpers: the scan works on directory and file names as UTF-8
//! byte vectors, so equality, cloning and concatenation are verified here once.

use vstd::prelude::*;

verus! {

/// The view of a sequence of byte vectors, component by component.
pub open spec fn bytes2_view(s: Seq<Vec<u8>>) -> Seq<Seq<u8>> {
    s.map_values(|v: Vec<u8>| v@)
}

/// Byte-wise equality of two byte vectors.
pub fn bytes_eq(a: &Vec<u8>, b: &Vec<u8>) -> (r: bool)
    ensures
        r == (a@ == b@),
{
    if a.len() != b.len() {
        return false;
    }
    let mut i: usize = 0;
    while i < a.len()
        invariant
            i <= a.len(),
            a@.len() == b@.len(),
            forall|j: int| 0 <= j < i ==> a@[j] == b@[j],
        decreases a.len() - i,
    {
        if a[i] != b[i] {
            return false;
        }
        i += 1;
    }
    proof {
        assert(a@ =~= b@);
    }
    true
}

/// A fresh copy of a byte vector.
pub fn clone_bytes(v: &Vec<u8>) -> (r: Vec<u8>)
    ensures
        r@ == v@,
{
    let mut r: Vec<u8> = Vec::new();
    let mut i: usize = 0;
    while i < v.len()
        invariant
            i <= v.len(),
            r@ == v@.take(i as int),
        decreases v.len() - i,
    {
        r.push(v[i]);
        proof {
            assert(v@.take(i + 1) =~= v@.take(i as int).push(v@[i as int]));
        }
        i += 1;
    }
    proof {
        assert(v@.take(v@.len() as int) =~= v@);
    }
    r
}

/// Appends `src[from..to]` to `dst`.
pub fn append_bytes(dst: &mut Vec<u8>, src: &Vec<u8>, from: usize, to: usize)
    requires
        from <= to <= src@.len(),
    ensures
        final(dst)@ == old(dst)@ + src@.subrange(from as int, to as int),
{
    let mut i: usize = from;
    while i < to
        invariant
            from <= i <= to <= src@.len(),
            dst@ == old(dst)@ + src@.subrange(from as int, i as int),
        decreases to - i,
    {
        dst.push(src[i]);
        proof {
            assert(src@.subrange(from as int, i + 1) =~= src@.subrange(
                from as int,
                i as int,
            ).push(src@[i as int]));
        }
        i += 1;
    }
}

/// A fresh copy of a path, a vector of name components.
pub fn clone_path(p: &Vec<Vec<u8>>) -> (r: Vec<Vec<u8>>)
    ensures
        bytes2_view(r@) == bytes2_view(p@),
        r@.len() == p@.len(),
{
    path_prefix(p, p.len())
}

/// The first `n` components of a path, freshly copied.
pub fn path_prefix(p: &Vec<Vec<u8>>, n: usize) -> (r: Vec<Vec<u8>>)
    requires
        n <= p@.len(),
    ensures
        bytes2_view(r@) == bytes2_view(p@).take(n as int),
        r@.len() == n,
{
    let mut r: Vec<Vec<u8>> = Vec::new();
    let mut i: usize = 0;
    while i < n
        invariant
            i <= n <= p@.len(),
            r@.len() == i,
            bytes2_view(r@) == bytes2_view(p@).take(i as int),
        decreases n - i,
    {
        let c = clone_bytes(&p[i]);
        r.push(c);
        proof {
            assert(bytes2_view(r@) =~= bytes2_view(p@).take(i + 1));
        }
        i += 1;
    }
    r
}

/// The directory name `stats`, as UTF-8 bytes.
pub open spec fn stats_name() -> Seq<u8> {
    seq![115u8, 116u8, 97u8, 116u8, 115u8]
}

/// Builds the name `stats`.
pub fn stats_name_vec() -> (r: Vec<u8>)
    ensures
        r@ == stats_name(),
{
    let mut r: Vec<u8> = Vec::new();
    r.push(115);
    r.push(116);
    r.push(97);
    r.push(116);
    r.push(115);
    proof {
        assert(r@ =~= stats_name());
    }
    r
}

/// The file name `icon.png`, as UTF-8 bytes.
pub open spec fn icon_name() -> Seq<u8> {
    seq![105u8, 99u8, 111u8, 110u8, 46u8, 112u8, 110u8, 103u8]
}

/// Builds the name `icon.png`.
pub fn icon_name_vec() -> (r: Vec<u8>)
    ensures
        r@ == icon_name(),
{
    let mut r: Vec<u8> = Vec::new();
    r.push(105);
    r.push(99);
    r.push(111);
    r.push(110);
    r.push(46);
    r.push(112);
    r.push(110);
    r.push(103);
    proof {
        assert(r@ =~= icon_name());
    }
    r
}

/// The file name suffix `.json`, as UTF-8 bytes.
pub open spec fn json_suffix() -> Seq<u8> {
    seq![46u8, 106u8, 115u8, 111u8, 110u8]
}

/// The stats file name for an identity: the dashed identity followed by
/// `.json`.
pub fn stats_file_name(id: &Vec<u8>) -> (r: Vec<u8>)
    ensures
        r@ == id@ + json_suffix(),
{
    let mut r = clone_bytes(id);
    r.push(46);
    r.push(106);
    r.push(115);
    r.push(111);
    r.push(110);
    proof {
        assert(r@ =~= id@ + json_suffix());
    }
    r
}

/// The string `OfflinePlayer:`, as UTF-8 bytes: the fixed prefix hashed
/// together with the player name to derive the offline identity.
pub open spec fn offline_prefix() -> Seq<u8> {
    seq![79u8, 102u8, 102u8, 108u8, 105u8, 110u8, 101u8, 80u8, 108u8, 97u8, 121u8, 101u8, 114u8, 58u8]
}

/// Builds the prefix `OfflinePlayer:`.
pub fn offline_prefix_vec() -> (r: Vec<u8>)
    ensures
        r@ == offline_prefix(),
{
    let mut r: Vec<u8> = Vec::new();
    r.push(79);
    r.push(102);
    r.push(102);
    r.push(108);
    r.push(105);
    r.push(110);
    r.push(101);
    r.push(80);
    r.push(108);
    r.push(97);
    r.push(121);
    r.push(101);
    r.push(114);
    r.push(58);
    proof {
        assert(r@ =~= offline_prefix());
    }
    r
}

} // verus!
