//! Registry of directories the session has been granted access to.
//!
//! The registry only ever grows, one explicit grant at a time; callers are
//! expected to canonicalize a directory before granting it. A path is
//! authorized when it equals, or lies component-wise below, some granted
//! directory.

use vstd::prelude::*;

use crate::paths::contained_in;
use crate::paths::path_contained_in;

verus! {

/// What a grant does to the registry contents: nothing when the directory is
/// already present, otherwise it is appended.
pub open spec fn grant_spec(dirs: Seq<Seq<u8>>, path: Seq<u8>) -> Seq<Seq<u8>> {
    if dirs.contains(path) {
        dirs
    } else {
        dirs.push(path)
    }
}

/// Whether `path` equals or lies below one of the granted directories.
pub open spec fn authorized_spec(dirs: Seq<Seq<u8>>, path: Seq<u8>) -> bool {
    exists|i: int| 0 <= i < dirs.len() && contained_in(path, dirs[i])
}

/// The set of directories the session may touch, each stored as the byte
/// string of a canonical absolute path.
pub struct AuthorizedDirs {
    dirs: Vec<Vec<u8>>,
}

impl AuthorizedDirs {
    /// The granted directories, in grant order.
    pub closed spec fn view(&self) -> Seq<Seq<u8>> {
        crate::paths::views_of(self.dirs@)
    }

    /// An empty registry: nothing is authorized yet.
    pub fn new() -> (r: Self)
        ensures
            r@ == Seq::<Seq<u8>>::empty(),
    {
        let r = AuthorizedDirs { dirs: Vec::new() };
        proof {
            assert(r@ =~= Seq::<Seq<u8>>::empty());
        }
        r
    }

    /// Grants a directory. Granting a directory that is already present
    /// changes nothing, so repeating a grant is unobservable.
    pub fn add(&mut self, path: Vec<u8>)
        ensures
            final(self)@ == grant_spec(old(self)@, path@),
    {
        let n: usize = self.dirs.len();
        for i in 0..n
            invariant
                n == self.dirs@.len(),
                forall|k: int| 0 <= k < i ==> self@[k] != path@,
                *self == *old(self),
        {
            if crate::paths::bytes_equal(&self.dirs[i], &path) {
                proof {
                    assert(self@[i as int] == path@);
                    assert(self@.contains(path@));
                }
                return;
            }
            proof {
                assert(self@[i as int] == self.dirs@.map_values(|c: Vec<u8>| c@)[i as int]);
            }
        }
        proof {
            assert(forall|k: int| 0 <= k < old(self)@.len() ==> old(self)@[k] != path@);
            assert(!old(self)@.contains(path@));
        }
        self.dirs.push(path);
        proof {
            assert(self@ =~= old(self)@.push(path@));
        }
    }

    /// Whether `path` equals or lies component-wise below a granted
    /// directory.
    pub fn is_authorized(&self, path: &Vec<u8>) -> (r: bool)
        ensures
            r == authorized_spec(self@, path@),
    {
        let n: usize = self.dirs.len();
        for i in 0..n
            invariant
                n == self.dirs@.len(),
                forall|k: int| 0 <= k < i ==> !contained_in(path@, self@[k]),
        {
            proof {
                assert(self@[i as int] == self.dirs@.map_values(|c: Vec<u8>| c@)[i as int]);
            }
            if path_contained_in(path, &self.dirs[i]) {
                return true;
            }
        }
        false
    }
}

/// Granting a directory twice leaves the registry, and with it every
/// authorization answer, exactly as a single grant does.
pub proof fn lemma_grant_idempotent(dirs: Seq<Seq<u8>>, path: Seq<u8>)
    ensures
        grant_spec(grant_spec(dirs, path), path) == grant_spec(dirs, path),
{
    if !dirs.contains(path) {
        assert(dirs.push(path)[dirs.len() as int] == path);
        assert(dirs.push(path).contains(path));
    }
}

/// The registry only grows: a grant never revokes, so whatever was
/// authorized before a grant is still authorized after it.
pub proof fn lemma_grant_monotone(dirs: Seq<Seq<u8>>, granted: Seq<u8>, path: Seq<u8>)
    requires
        authorized_spec(dirs, path),
    ensures
        authorized_spec(grant_spec(dirs, granted), path),
{
    let i = choose|i: int| 0 <= i < dirs.len() && contained_in(path, dirs[i]);
    if !dirs.contains(granted) {
        assert(dirs.push(granted)[i] == dirs[i]);
    }
}

/// Granting the directory a path lies below authorizes that path.
pub proof fn lemma_grant_authorizes(dirs: Seq<Seq<u8>>, granted: Seq<u8>, path: Seq<u8>)
    requires
        contained_in(path, granted),
    ensures
        authorized_spec(grant_spec(dirs, granted), path),
{
    if dirs.contains(granted) {
        let i = choose|i: int| 0 <= i < dirs.len() && dirs[i] == granted;
        assert(contained_in(path, grant_spec(dirs, granted)[i]));
    } else {
        assert(contained_in(path, dirs.push(granted)[dirs.len() as int]));
    }
}

} // verus!
