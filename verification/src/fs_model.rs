//! A snapshot of the filesystem as a value: the files the run may read,
//! each an absolute path paired with its content. Resolution and the
//! closure walk are pure functions over this snapshot.

use vstd::prelude::*;
use vstd::string::StringExecFns;

use crate::paths::is_inside;
use crate::paths::spec_is_inside;
use crate::paths::str_eq;

verus! {

/// A snapshot of the files visible to a run.
pub struct FileSystem {
    /// Each file's absolute path and its full content.
    pub files: Vec<(String, String)>,
}

/// The content of the first entry whose path equals `path`, if any.
pub open spec fn spec_lookup(files: Seq<(String, String)>, path: Seq<char>) -> Option<Seq<char>>
    decreases files.len(),
{
    if files.len() == 0 {
        None
    } else if files[0].0@ == path {
        Some(files[0].1@)
    } else {
        spec_lookup(files.drop_first(), path)
    }
}

/// Whether the snapshot holds a file with exactly this path.
pub open spec fn spec_is_file(fs: FileSystem, path: Seq<char>) -> bool {
    spec_lookup(fs.files@, path) is Some
}

/// Whether the snapshot holds a file strictly inside directory `path`, which
/// is what makes `path` a directory.
pub open spec fn spec_is_dir(fs: FileSystem, path: Seq<char>) -> bool {
    exists|k: int| 0 <= k < fs.files@.len() && spec_is_inside(#[trigger] fs.files@[k].0@, path)
}

impl FileSystem {
    /// The content of the file at `path`, if the snapshot holds one.
    pub fn read_file(&self, path: &str) -> (r: Option<String>)
        ensures
            match r {
                Some(c) => spec_lookup(self.files@, path@) == Some(c@),
                None => spec_lookup(self.files@, path@) is None,
            },
    {
        let n = self.files.len();
        let mut i: usize = 0;
        proof {
            assert(self.files@.skip(0) =~= self.files@);
        }
        while i < n
            invariant
                0 <= i <= n,
                n == self.files@.len(),
                spec_lookup(self.files@, path@) == spec_lookup(
                    self.files@.skip(i as int),
                    path@,
                ),
            decreases n - i,
        {
            proof {
                assert(self.files@.skip(i as int)[0] == self.files@[i as int]);
                assert(self.files@.skip(i as int).drop_first() =~= self.files@.skip(i as int + 1));
            }
            if str_eq(self.files[i].0.as_str(), path) {
                return Some(self.files[i].1.clone());
            }
            i += 1;
        }
        proof {
            assert(self.files@.skip(n as int) =~= Seq::<(String, String)>::empty());
        }
        None
    }

    /// Whether the snapshot holds a file with exactly this path.
    pub fn is_file(&self, path: &str) -> (r: bool)
        ensures
            r == spec_is_file(*self, path@),
    {
        match self.read_file(path) {
            Some(_) => true,
            None => false,
        }
    }

    /// Whether the snapshot holds a file strictly inside directory `path`.
    pub fn is_dir(&self, path: &str) -> (r: bool)
        ensures
            r == spec_is_dir(*self, path@),
    {
        let n = self.files.len();
        let mut i: usize = 0;
        while i < n
            invariant
                0 <= i <= n,
                n == self.files@.len(),
                forall|k: int|
                    0 <= k < i ==> !spec_is_inside(#[trigger] self.files@[k].0@, path@),
            decreases n - i,
        {
            if is_inside(self.files[i].0.as_str(), path) {
                return true;
            }
            i += 1;
        }
        false
    }
}

} // verus!
