//! Durable encrypted-at-rest blob storage addressed by path, with
//! backup-before-overwrite semantics.  The store models the sealed path
//! space as a map from path bytes to plaintext payload; the platform seal
//! and the actual disk writes are the surrounding process's concern and
//! opaque here.

use vstd::prelude::*;
use crate::bytemap::{map_of, assoc_put, assoc_get, assoc_contains};

verus! {

/// Storage-kind failures of the sealed store.
#[derive(Debug, Clone, Copy, PartialEq, Eq)]
pub enum StoreError {
    /// No blob is present at the path.
    NotFound,
    /// The blob at the path failed authentication when read back.
    Integrity,
}

/// The backup path of a path: the path with `.1` appended.
pub open spec fn backup_path_spec(p: Seq<u8>) -> Seq<u8> {
    p + seq![0x2eu8, 0x31u8]
}

/// Builds the backup path (`path + ".1"`) of a path.
pub fn backup_path(path: &[u8]) -> (r: Vec<u8>)
    ensures
        r@ == backup_path_spec(path@),
{
    let mut p: Vec<u8> = Vec::new();
    let n: usize = path.len();
    let mut i: usize = 0;
    while i < n
        invariant
            n == path@.len(),
            i <= n,
            p@ =~= path@.take(i as int),
        decreases n - i,
    {
        p.push(path[i]);
        i = i + 1;
    }
    assert(p@ =~= path@);
    p.push(0x2e);
    p.push(0x31);
    assert(p@ =~= backup_path_spec(path@));
    p
}

/// What one sealing write does to the path space: if the path already holds
/// a blob, that blob moves to the backup path; then the path holds the new
/// payload.
pub open spec fn seal_spec(m: Map<Seq<u8>, Seq<u8>>, p: Seq<u8>, b: Seq<u8>) -> Map<
    Seq<u8>,
    Seq<u8>,
> {
    if m.dom().contains(p) {
        m.insert(backup_path_spec(p), m[p]).insert(p, b)
    } else {
        m.insert(p, b)
    }
}

/// The sealed path space of one shard.
pub struct SealedStore {
    entries: Vec<(Vec<u8>, Vec<u8>)>,
}

impl View for SealedStore {
    type V = Map<Seq<u8>, Seq<u8>>;

    closed spec fn view(&self) -> Map<Seq<u8>, Seq<u8>> {
        map_of(self.entries@)
    }
}

impl SealedStore {
    /// A store with no sealed blob.
    pub fn new() -> (s: SealedStore)
        ensures
            s@ == Map::<Seq<u8>, Seq<u8>>::empty(),
    {
        SealedStore { entries: Vec::new() }
    }

    /// Seals `bytes` at `path`.  A blob already at the path is first copied
    /// to the backup path, so no sealing write destroys the only copy of
    /// prior durable data.
    pub fn seal(&mut self, path: &[u8], bytes: Vec<u8>) -> (r: Result<(), StoreError>)
        ensures
            final(self)@ == seal_spec(old(self)@, path@, bytes@),
            r is Ok,
    {
        match assoc_get(&self.entries, path) {
            Some(prior) => {
                let prior_copy = prior.clone();
                assert(prior_copy@ == old(self)@[path@]);
                let bpath = backup_path(path);
                assoc_put(&mut self.entries, bpath, prior_copy);
                let mut own_path: Vec<u8> = Vec::new();
                own_path.extend_from_slice(path);
                assert(own_path@ == path@);
                assoc_put(&mut self.entries, own_path, bytes);
            },
            None => {
                let mut own_path: Vec<u8> = Vec::new();
                own_path.extend_from_slice(path);
                assert(own_path@ == path@);
                assoc_put(&mut self.entries, own_path, bytes);
            },
        }
        Ok(())
    }

    /// Reads the blob at `path` back; fails with `NotFound` exactly when the
    /// path holds no blob.
    pub fn unseal(&self, path: &[u8]) -> (r: Result<Vec<u8>, StoreError>)
        ensures
            match r {
                Ok(b) => self@.dom().contains(path@) && b@ == self@[path@],
                Err(e) => !self@.dom().contains(path@) && e == StoreError::NotFound,
            },
    {
        match assoc_get(&self.entries, path) {
            Some(b) => Ok(b.clone()),
            None => Err(StoreError::NotFound),
        }
    }

    /// Whether a blob is sealed at `path` (existence only; nothing is read).
    pub fn contains(&self, path: &[u8]) -> (r: bool)
        ensures
            r == self@.dom().contains(path@),
    {
        assoc_contains(&self.entries, path)
    }
}

/// Backup-before-overwrite: after sealing `a` and then `b` at the same path,
/// the path holds `b` and the backup path holds `a`.
pub proof fn lemma_backup_before_overwrite(
    m: Map<Seq<u8>, Seq<u8>>,
    p: Seq<u8>,
    a: Seq<u8>,
    b: Seq<u8>,
)
    ensures
        seal_spec(seal_spec(m, p, a), p, b)[p] == b,
        seal_spec(seal_spec(m, p, a), p, b)[backup_path_spec(p)] == a,
{
    assert(backup_path_spec(p).len() == p.len() + 2);
}

} // verus!
