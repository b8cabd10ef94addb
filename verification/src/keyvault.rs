//! Custody of threshold-cryptography shares keyed by resource id, gated by a
//! pluggable authorization predicate and persisted through the sealed store.
//!
//! Denied, missing and corrupt lookups all collapse to one "no" answer at
//! this boundary, deliberately: an outside caller cannot distinguish a wrong
//! owner from absent data.

use vstd::prelude::*;
use vstd::arithmetic::div_mod::lemma_fundamental_div_mod;
use crate::sealed_store::{SealedStore, StoreError, seal_spec};
use crate::types::{AccountId32, NFTId};

verus! {

/// Failures of the keyvault.
#[derive(Debug, Clone, Copy, PartialEq, Eq)]
pub enum Error {
    /// Wrapping of a storage error into the keyvault's error kind.
    IoError(StoreError),
    /// Keyvault-level refusal concerning the named resource.
    KeyvaultError(NFTId),
}

/// The default directory shares are sealed under (`keyshare`).
pub open spec fn storage_path_spec() -> Seq<u8> {
    seq![0x6bu8, 0x65, 0x79, 0x73, 0x68, 0x61, 0x72, 0x65]
}

/// The decimal digits of `n`, as ASCII bytes, most significant first.
pub open spec fn dec_digits(n: u32) -> Seq<u8>
    decreases n,
{
    if n < 10 {
        seq![(0x30 + n) as u8]
    } else {
        dec_digits(n / 10) + seq![(0x30 + n % 10) as u8]
    }
}

pub proof fn lemma_dec_digits_len(n: u32)
    ensures
        dec_digits(n).len() >= 1,
        (n < 10) == (dec_digits(n).len() == 1),
    decreases n,
{
    if n >= 10 {
        lemma_dec_digits_len(n / 10);
    }
}

/// Distinct numbers have distinct decimal representations.
pub proof fn lemma_dec_digits_injective(a: u32, b: u32)
    ensures
        dec_digits(a) == dec_digits(b) ==> a == b,
    decreases a + b,
{
    if dec_digits(a) == dec_digits(b) {
        lemma_dec_digits_len(a);
        lemma_dec_digits_len(b);
        if a < 10 && b < 10 {
            assert(dec_digits(a)[0] == (0x30 + a) as u8);
            assert(dec_digits(b)[0] == (0x30 + b) as u8);
            assert(a == b);
        } else if a < 10 || b < 10 {
            assert(dec_digits(a).len() == dec_digits(b).len());
            assert(false);
        } else {
            let da = dec_digits(a);
            let db = dec_digits(b);
            assert(da.last() == (0x30 + a % 10) as u8);
            assert(db.last() == (0x30 + b % 10) as u8);
            assert(a % 10 == b % 10);
            assert(dec_digits(a / 10) =~= da.drop_last());
            assert(dec_digits(b / 10) =~= db.drop_last());
            lemma_dec_digits_injective(a / 10, b / 10);
            lemma_fundamental_div_mod(a as int, 10);
            lemma_fundamental_div_mod(b as int, 10);
        }
    }
}

/// Builds the decimal digits of `n` as ASCII bytes.
pub fn u32_to_decimal(n: u32) -> (r: Vec<u8>)
    ensures
        r@ == dec_digits(n),
    decreases n,
{
    if n < 10 {
        let mut v: Vec<u8> = Vec::new();
        v.push(0x30 + (n as u8));
        assert(v@ =~= dec_digits(n));
        v
    } else {
        let mut v = u32_to_decimal(n / 10);
        v.push(0x30 + ((n % 10) as u8));
        assert(v@ =~= dec_digits(n));
        v
    }
}

/// The file name suffix of a sealed share (`_Nft.bin`).
pub open spec fn nft_suffix_spec() -> Seq<u8> {
    seq![0x5fu8, 0x4e, 0x66, 0x74, 0x2e, 0x62, 0x69, 0x6e]
}

/// The sealed path of the share of `nft_id` under directory `dir`:
/// `dir/{nft_id}_Nft.bin`.
pub open spec fn nft_path_spec(dir: Seq<u8>, nft_id: u32) -> Seq<u8> {
    dir + seq![0x2fu8] + dec_digits(nft_id) + nft_suffix_spec()
}

/// Path derivation is collision-free: distinct resource ids never map to the
/// same sealed file under one directory.
pub proof fn lemma_nft_path_collision_free(dir: Seq<u8>, a: u32, b: u32)
    ensures
        a != b ==> nft_path_spec(dir, a) != nft_path_spec(dir, b),
{
    if nft_path_spec(dir, a) == nft_path_spec(dir, b) {
        let da = dec_digits(a);
        let db = dec_digits(b);
        assert(nft_path_spec(dir, a).len() == dir.len() + 1 + da.len() + 8);
        assert(nft_path_spec(dir, b).len() == dir.len() + 1 + db.len() + 8);
        assert forall|k: int| 0 <= k < da.len() implies da[k] == db[k] by {
            assert(nft_path_spec(dir, a)[dir.len() + 1 + k] == da[k]);
            assert(nft_path_spec(dir, b)[dir.len() + 1 + k] == db[k]);
        }
        assert(da =~= db);
        lemma_dec_digits_injective(a, b);
    }
}

/// Authorization capability: is this owner allowed to touch this resource?
/// The policy is separated from the storage so it can be replaced without
/// touching storage logic.
pub trait NftAccess {
    /// The predicate the policy decides, as a mathematical relation.
    spec fn authorized_spec(&self, owner: AccountId32, nft_id: NFTId) -> bool;

    /// Decides the predicate.
    fn is_authorized(&self, owner: AccountId32, nft_id: NFTId) -> (r: bool)
        ensures
            r == self.authorized_spec(owner, nft_id),
    ;
}

/// The reference policy: every request is authorized.  Which ownership check
/// is actually intended is an open design question; this mirrors the
/// permissive default.
pub struct OpenNftAccess;

impl NftAccess for OpenNftAccess {
    open spec fn authorized_spec(&self, owner: AccountId32, nft_id: NFTId) -> bool {
        true
    }

    fn is_authorized(&self, owner: AccountId32, nft_id: NFTId) -> (r: bool) {
        true
    }
}

/// A policy that denies every request; it exercises the authorization gate.
pub struct ClosedNftAccess;

impl NftAccess for ClosedNftAccess {
    open spec fn authorized_spec(&self, owner: AccountId32, nft_id: NFTId) -> bool {
        false
    }

    fn is_authorized(&self, owner: AccountId32, nft_id: NFTId) -> (r: bool) {
        false
    }
}

/// What `sharks::Share::try_from` parses a byte slice (of length at least 2)
/// into.  The parse is exact and injective: the first byte and the remainder
/// become the share's coordinates.
pub uninterp spec fn share_of_bytes(b: Seq<u8>) -> sharks::Share;

#[verifier::external_type_specification]
#[verifier::external_body]
pub struct ExShare(sharks::Share);

/// Relies on `sharks::Share::try_from` on a byte slice: it succeeds exactly
/// on slices of length at least 2, and its result is a function of the bytes
/// alone.
#[verifier::external_body]
fn share_from_bytes(b: &[u8]) -> (r: Option<sharks::Share>)
    ensures
        b@.len() >= 2 ==> r == Some(share_of_bytes(b@)),
        b@.len() < 2 ==> r is None,
{
    match sharks::Share::try_from(b) {
        Ok(s) => Some(s),
        Err(_) => None,
    }
}

/// Relies on `Vec::<u8>::from(&sharks::Share)`: one byte for the x
/// coordinate followed by the y bytes — the exact inverse of
/// `Share::try_from`, so a share parsed from bytes serializes back to them.
#[verifier::external_body]
fn share_to_bytes(s: &sharks::Share) -> (r: Vec<u8>)
    ensures
        r@.len() >= 1,
        forall|b: Seq<u8>| b.len() >= 2 && #[trigger] share_of_bytes(b) == *s ==> r@ == b,
{
    Vec::from(s)
}

/// The share vault of one worker: a sealed directory plus the policy that
/// gates it.
pub struct KeyvaultStorage<P> {
    pub path: Vec<u8>,
    pub store: SealedStore,
    pub policy: P,
}

impl KeyvaultStorage<OpenNftAccess> {
    /// A vault under the default directory, with the reference policy and an
    /// empty store.
    pub fn new() -> (s: Self)
        ensures
            s.path@ == storage_path_spec(),
            s.store@ == Map::<Seq<u8>, Seq<u8>>::empty(),
    {
        let mut p: Vec<u8> = Vec::new();
        p.push(0x6b);
        p.push(0x65);
        p.push(0x79);
        p.push(0x73);
        p.push(0x68);
        p.push(0x61);
        p.push(0x72);
        p.push(0x65);
        assert(p@ =~= storage_path_spec());
        KeyvaultStorage { path: p, store: SealedStore::new(), policy: OpenNftAccess }
    }
}

impl<P: NftAccess> KeyvaultStorage<P> {
    /// A vault under the default directory with the given policy.
    pub fn with_policy(policy: P) -> (s: Self)
        ensures
            s.path@ == storage_path_spec(),
            s.store@ == Map::<Seq<u8>, Seq<u8>>::empty(),
            s.policy == policy,
    {
        let mut p: Vec<u8> = Vec::new();
        p.push(0x6b);
        p.push(0x65);
        p.push(0x79);
        p.push(0x73);
        p.push(0x68);
        p.push(0x61);
        p.push(0x72);
        p.push(0x65);
        assert(p@ =~= storage_path_spec());
        KeyvaultStorage { path: p, store: SealedStore::new(), policy }
    }

    /// Replaces the vault's directory.
    pub fn set_path(self, path: Vec<u8>) -> (s: Self)
        ensures
            s.path == path,
            s.store == self.store,
            s.policy == self.policy,
    {
        KeyvaultStorage { path, store: self.store, policy: self.policy }
    }

    /// The sealed file path of the share of `nft_id`: the file name encodes
    /// the id.
    pub fn nft_sealed_file_path(&self, nft_id: NFTId) -> (r: Vec<u8>)
        ensures
            r@ == nft_path_spec(self.path@, nft_id),
    {
        let mut p: Vec<u8> = Vec::new();
        let n: usize = self.path.len();
        let mut i: usize = 0;
        while i < n
            invariant
                n == self.path@.len(),
                i <= n,
                p@ =~= self.path@.take(i as int),
            decreases n - i,
        {
            p.push(self.path[i]);
            i = i + 1;
        }
        assert(p@ =~= self.path@);
        p.push(0x2f);
        let digits = u32_to_decimal(nft_id);
        let m: usize = digits.len();
        let mut j: usize = 0;
        while j < m
            invariant
                m == digits@.len(),
                j <= m,
                digits@ == dec_digits(nft_id),
                p@ =~= self.path@ + seq![0x2fu8] + digits@.take(j as int),
            decreases m - j,
        {
            p.push(digits[j]);
            assert(p@ =~= self.path@ + seq![0x2fu8] + digits@.take(j + 1));
            j = j + 1;
        }
        assert(p@ =~= self.path@ + seq![0x2fu8] + dec_digits(nft_id));
        p.push(0x5f);
        p.push(0x4e);
        p.push(0x66);
        p.push(0x74);
        p.push(0x2e);
        p.push(0x62);
        p.push(0x69);
        p.push(0x6e);
        assert(p@ =~= nft_path_spec(self.path@, nft_id));
        p
    }

    /// Seals the share bytes of `nft_id`, backing an existing share up first.
    /// The seal itself is not gated: gating is `provision`'s business.
    pub fn seal(&mut self, nft_id: NFTId, share_bytes: Vec<u8>) -> (r: Result<(), Error>)
        ensures
            final(self).store@ == seal_spec(
                old(self).store@,
                nft_path_spec(old(self).path@, nft_id),
                share_bytes@,
            ),
            final(self).path == old(self).path,
            final(self).policy == old(self).policy,
            r is Ok,
    {
        let filepath = self.nft_sealed_file_path(nft_id);
        match self.store.seal(filepath.as_slice(), share_bytes) {
            Ok(()) => Ok(()),
            Err(e) => Err(Error::IoError(e)),
        }
    }

    /// Reads the share bytes of `nft_id` back; fails exactly when no share
    /// is sealed for the id.
    pub fn unseal(&self, nft_id: NFTId) -> (r: Result<Vec<u8>, Error>)
        ensures
            ({
                let p = nft_path_spec(self.path@, nft_id);
                match r {
                    Ok(b) => self.store@.dom().contains(p) && b@ == self.store@[p],
                    Err(e) => !self.store@.dom().contains(p) && e == Error::IoError(
                        StoreError::NotFound,
                    ),
                }
            }),
    {
        let filepath = self.nft_sealed_file_path(nft_id);
        match self.store.unseal(filepath.as_slice()) {
            Ok(b) => Ok(b),
            Err(e) => Err(Error::IoError(e)),
        }
    }

    /// Stores a share for `(owner, nft_id)`.  Refused if the policy denies
    /// the pair; overwriting an existing share is allowed, and the backup
    /// path keeps the previous value.
    pub fn provision(&mut self, owner: AccountId32, nft_id: NFTId, share: sharks::Share) -> (r:
        Result<(), Error>)
        ensures
            !old(self).policy.authorized_spec(owner, nft_id) ==> r == Err::<(), Error>(
                Error::KeyvaultError(nft_id),
            ) && *final(self) == *old(self),
            old(self).policy.authorized_spec(owner, nft_id) ==> r is Ok && final(self).path == old(
                self,
            ).path && final(self).policy == old(self).policy && (exists|b: Seq<u8>|
                b.len() >= 1 && final(self).store@ == seal_spec(
                    old(self).store@,
                    nft_path_spec(old(self).path@, nft_id),
                    b,
                )),
            forall|b: Seq<u8>|
                b.len() >= 2 && #[trigger] share_of_bytes(b) == share && old(
                    self,
                ).policy.authorized_spec(owner, nft_id) ==> final(self).store@ == seal_spec(
                    old(self).store@,
                    nft_path_spec(old(self).path@, nft_id),
                    b,
                ),
    {
        if !self.policy.is_authorized(owner, nft_id) {
            return Err(Error::KeyvaultError(nft_id));
        }
        let share_bytes = share_to_bytes(&share);
        let ghost witness: Seq<u8> = share_bytes@;
        let r = self.seal(nft_id, share_bytes);
        assert(witness.len() >= 1);
        r
    }

    /// Whether a share for `(owner, nft_id)` is in the store: false when the
    /// policy denies the pair, else exactly the existence of the sealed file.
    pub fn check(&self, owner: AccountId32, nft_id: NFTId) -> (r: bool)
        ensures
            r == (self.policy.authorized_spec(owner, nft_id) && self.store@.dom().contains(
                nft_path_spec(self.path@, nft_id),
            )),
    {
        if !self.is_authorized(owner, nft_id) {
            return false;
        }
        let file_name = self.nft_sealed_file_path(nft_id);
        self.store.contains(file_name.as_slice())
    }

    /// Fetches the share of `(owner, nft_id)`.  Denied, missing and
    /// malformed all yield `None`.
    pub fn get(&self, owner: AccountId32, nft_id: NFTId) -> (r: Option<sharks::Share>)
        ensures
            ({
                let p = nft_path_spec(self.path@, nft_id);
                &&& (r is Some <==> self.policy.authorized_spec(owner, nft_id)
                    && self.store@.dom().contains(p) && self.store@[p].len() >= 2)
                &&& (r matches Some(s) ==> s == share_of_bytes(self.store@[p]))
            }),
    {
        if !self.is_authorized(owner, nft_id) {
            return None;
        }
        match self.unseal(nft_id) {
            Ok(share_bytes) => share_from_bytes(share_bytes.as_slice()),
            Err(_) => None,
        }
    }

    fn is_authorized(&self, owner: AccountId32, nft_id: NFTId) -> (r: bool)
        ensures
            r == self.policy.authorized_spec(owner, nft_id),
    {
        self.policy.is_authorized(owner, nft_id)
    }
}

// ----- checked scenarios over the vault -----

/// A fresh vault sits under the default directory.
pub fn create_keyvault_storage_works() {
    let storage = KeyvaultStorage::new();
    assert(storage.path@ == storage_path_spec());
}

/// `set_path` replaces the directory.
pub fn set_filename_and_path_works() {
    // "test_set_path"
    let dir: Vec<u8> = vec![0x74u8, 0x65, 0x73, 0x74, 0x5f, 0x73, 0x65, 0x74, 0x5f, 0x70, 0x61,
        0x74, 0x68];
    let ghost d = dir@;
    let storage = KeyvaultStorage::new().set_path(dir);
    assert(storage.path@ == d);
}

/// The sealed file name encodes the resource id.
pub fn test_sealed_file_name_contains_nftid() {
    // "test_sealed_file_name"
    let dir: Vec<u8> = vec![0x74u8, 0x65, 0x73, 0x74, 0x5f, 0x73, 0x65, 0x61, 0x6c, 0x65, 0x64,
        0x5f, 0x66, 0x69, 0x6c, 0x65, 0x5f, 0x6e, 0x61, 0x6d, 0x65];
    let ghost d = dir@;
    let storage = KeyvaultStorage::new().set_path(dir);
    let file = storage.nft_sealed_file_path(197);
    proof {
        reveal_with_fuel(dec_digits, 4);
        assert(dec_digits(197) =~= seq![0x31u8, 0x39, 0x37]);
    }
    assert(file@.subrange(d.len() as int + 1, d.len() as int + 4) =~= seq![0x31u8, 0x39, 0x37]);
}

/// Reading a share back fails when no file was ever sealed for the id.
pub fn test_unseal_fails_when_no_file_exists() {
    // "unseal_fails_no_file"
    let dir: Vec<u8> = vec![0x75u8, 0x6e, 0x73, 0x65, 0x61, 0x6c, 0x5f, 0x66, 0x61, 0x69, 0x6c,
        0x73, 0x5f, 0x6e, 0x6f, 0x5f, 0x66, 0x69, 0x6c, 0x65];
    let storage = KeyvaultStorage::new().set_path(dir);
    let r = storage.unseal(365);
    assert(r is Err);
}

/// Provisioning is refused outright when the owner is not authorized.
pub fn test_provision_fails_when_no_nft_owner() {
    let mut storage = KeyvaultStorage::with_policy(ClosedNftAccess);
    let owner = AccountId32 { bytes: [0u8; 32] };
    let share_bytes: Vec<u8> = vec![1u8, 2, 3];
    let share = share_from_bytes(share_bytes.as_slice()).unwrap();
    let r = storage.provision(owner, 42, share);
    assert(r == Err::<(), Error>(Error::KeyvaultError(42)));
    assert(storage.store@ == Map::<Seq<u8>, Seq<u8>>::empty());
}

/// `check` answers no for an unauthorized owner even when the share exists.
pub fn test_check_is_false_when_no_nft_owner() {
    let mut storage = KeyvaultStorage::with_policy(ClosedNftAccess);
    let share_bytes: Vec<u8> = vec![1u8, 2, 3];
    let r = storage.seal(42, share_bytes);
    assert(r is Ok);
    let owner = AccountId32 { bytes: [0u8; 32] };
    let present = storage.check(owner, 42);
    assert(!present);
}

/// `get` answers nothing for an unauthorized owner even when the share
/// exists.
pub fn test_get_fails_when_no_nft_owner() {
    let mut storage = KeyvaultStorage::with_policy(ClosedNftAccess);
    let share_bytes: Vec<u8> = vec![1u8, 2, 3];
    let r = storage.seal(42, share_bytes);
    assert(r is Ok);
    let owner = AccountId32 { bytes: [0u8; 32] };
    let got = storage.get(owner, 42);
    assert(got is None);
}

} // verus!

