//! A snapshot of a directory tree, taken once per scan by the caller: each
//! directory carries the names of its immediate entries, and each file its
//! contents where they could be read. The scan itself is then a pure
//! computation over this snapshot.

use vstd::prelude::*;

use crate::bytes::bytes_eq;

verus! {

/// One file: its name and its contents, or `None` where the file could not
/// be read.
#[derive(Debug)]
pub struct FsFile {
    pub name: Vec<u8>,
    pub contents: Option<Vec<u8>>,
}

/// One directory: its name and its immediate files and sub-directories.
#[derive(Debug)]
pub struct FsDir {
    pub name: Vec<u8>,
    pub files: Vec<FsFile>,
    pub dirs: Vec<FsDir>,
}

/// The first sub-directory with the given name, if any.
pub open spec fn first_dir(ds: Seq<FsDir>, name: Seq<u8>) -> Option<FsDir>
    decreases ds.len(),
{
    if ds.len() == 0 {
        Option::None
    } else if ds[0].name@ == name {
        Option::Some(ds[0])
    } else {
        first_dir(ds.drop_first(), name)
    }
}

/// The first file with the given name, if any.
pub open spec fn first_file(fs: Seq<FsFile>, name: Seq<u8>) -> Option<FsFile>
    decreases fs.len(),
{
    if fs.len() == 0 {
        Option::None
    } else if fs[0].name@ == name {
        Option::Some(fs[0])
    } else {
        first_file(fs.drop_first(), name)
    }
}

/// A match-free prefix leaves the first match unchanged: searching from
/// position `i` finds the same entry when nothing before `i` matches.
proof fn lemma_first_dir_skip(ds: Seq<FsDir>, name: Seq<u8>, i: int)
    requires
        0 <= i <= ds.len(),
        forall|j: int| 0 <= j < i ==> ds[j].name@ != name,
    ensures
        first_dir(ds, name) == first_dir(ds.skip(i), name),
    decreases i,
{
    if i > 0 {
        assert(ds.skip(i - 1).drop_first() =~= ds.skip(i));
        assert(ds.skip(i - 1)[0] == ds[i - 1]);
        lemma_first_dir_skip(ds, name, i - 1);
    } else {
        assert(ds.skip(0) =~= ds);
    }
}

proof fn lemma_first_file_skip(fs: Seq<FsFile>, name: Seq<u8>, i: int)
    requires
        0 <= i <= fs.len(),
        forall|j: int| 0 <= j < i ==> fs[j].name@ != name,
    ensures
        first_file(fs, name) == first_file(fs.skip(i), name),
    decreases i,
{
    if i > 0 {
        assert(fs.skip(i - 1).drop_first() =~= fs.skip(i));
        assert(fs.skip(i - 1)[0] == fs[i - 1]);
        lemma_first_file_skip(fs, name, i - 1);
    } else {
        assert(fs.skip(0) =~= fs);
    }
}

/// A directory listing holds an entry of the given name exactly when the
/// first-match search succeeds.
pub proof fn lemma_first_dir_contains(ds: Seq<FsDir>, name: Seq<u8>)
    ensures
        first_dir(ds, name) is Some <==> exists|i: int|
            0 <= i < ds.len() && ds[i].name@ == name,
    decreases ds.len(),
{
    if ds.len() > 0 && ds[0].name@ != name {
        lemma_first_dir_contains(ds.drop_first(), name);
        if first_dir(ds.drop_first(), name) is Some {
            let i = choose|i: int|
                0 <= i < ds.drop_first().len() && ds.drop_first()[i].name@ == name;
            assert(ds[i + 1].name@ == name);
        }
        if exists|i: int| 0 <= i < ds.len() && ds[i].name@ == name {
            let i = choose|i: int| 0 <= i < ds.len() && ds[i].name@ == name;
            assert(ds.drop_first()[i - 1].name@ == name);
        }
    }
}

pub proof fn lemma_first_file_contains(fs: Seq<FsFile>, name: Seq<u8>)
    ensures
        first_file(fs, name) is Some <==> exists|i: int|
            0 <= i < fs.len() && fs[i].name@ == name,
    decreases fs.len(),
{
    if fs.len() > 0 && fs[0].name@ != name {
        lemma_first_file_contains(fs.drop_first(), name);
        if first_file(fs.drop_first(), name) is Some {
            let i = choose|i: int|
                0 <= i < fs.drop_first().len() && fs.drop_first()[i].name@ == name;
            assert(fs[i + 1].name@ == name);
        }
        if exists|i: int| 0 <= i < fs.len() && fs[i].name@ == name {
            let i = choose|i: int| 0 <= i < fs.len() && fs[i].name@ == name;
            assert(fs.drop_first()[i - 1].name@ == name);
        }
    }
}

/// Finds the first sub-directory with the given name.
pub fn find_dir<'a>(ds: &'a Vec<FsDir>, name: &Vec<u8>) -> (r: Option<&'a FsDir>)
    ensures
        match r {
            Option::Some(d) => first_dir(ds@, name@) == Option::Some(*d),
            Option::None => first_dir(ds@, name@) is None,
        },
{
    let mut i: usize = 0;
    while i < ds.len()
        invariant
            i <= ds@.len(),
            forall|j: int| 0 <= j < i ==> ds@[j].name@ != name@,
        decreases ds.len() - i,
    {
        if bytes_eq(&ds[i].name, name) {
            proof {
                lemma_first_dir_skip(ds@, name@, i as int);
                assert(ds@.skip(i as int)[0] == ds@[i as int]);
            }
            return Some(&ds[i]);
        }
        i += 1;
    }
    proof {
        lemma_first_dir_skip(ds@, name@, ds@.len() as int);
        assert(ds@.skip(ds@.len() as int) =~= Seq::<FsDir>::empty());
    }
    None
}

/// Finds the first file with the given name.
pub fn find_file<'a>(fs: &'a Vec<FsFile>, name: &Vec<u8>) -> (r: Option<&'a FsFile>)
    ensures
        match r {
            Option::Some(f) => first_file(fs@, name@) == Option::Some(*f),
            Option::None => first_file(fs@, name@) is None,
        },
{
    let mut i: usize = 0;
    while i < fs.len()
        invariant
            i <= fs@.len(),
            forall|j: int| 0 <= j < i ==> fs@[j].name@ != name@,
        decreases fs.len() - i,
    {
        if bytes_eq(&fs[i].name, name) {
            proof {
                lemma_first_file_skip(fs@, name@, i as int);
                assert(fs@.skip(i as int)[0] == fs@[i as int]);
            }
            return Some(&fs[i]);
        }
        i += 1;
    }
    proof {
        lemma_first_file_skip(fs@, name@, fs@.len() as int);
        assert(fs@.skip(fs@.len() as int) =~= Seq::<FsFile>::empty());
    }
    None
}

} // verus!
