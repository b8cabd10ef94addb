//! Account nonce and balance bookkeeping over an abstract key-value state,
//! and the hash-chained state-transition integrity check: a state diff is
//! applied only between verified before- and after-fingerprints, and a
//! failed check leaves the state untouched.

use vstd::prelude::*;
use vstd::bytes::{
    spec_u32_to_le_bytes,
    spec_u32_from_le_bytes,
    lemma_auto_spec_u32_to_from_le_bytes,
    u32_from_le_bytes,
    u32_to_le_bytes,
    spec_u64_to_le_bytes,
    u64_to_le_bytes,
    spec_u128_to_le_bytes,
    spec_u128_from_le_bytes,
    lemma_auto_spec_u128_to_from_le_bytes,
    u128_from_le_bytes,
    u128_to_le_bytes,
};
use crate::bytemap::{map_of, assoc_put, assoc_get, assoc_remove, entries_rep, remove_key_rep};
use crate::types::{AccountId, Balance, H256, Index, ShardIdentifier};

verus! {

/// Marker for the state-transition function's operations.
pub struct Stf;

/// Failures surfaced by the state-transition layer.  None is retried here;
/// all propagate to the caller.
#[derive(Debug, PartialEq, Eq)]
pub enum StfError {
    /// A privileged operation was attempted by a non-root account.
    MissingPrivileges(AccountId),
    /// The underlying call execution failed.
    Dispatch(String),
    /// Not enough funds to perform the operation.
    MissingFunds,
    /// The account does not exist.
    InexistentAccount(AccountId),
    /// The supplied nonce is not the account's current nonce.
    InvalidNonce(Index),
    /// The state at hand does not carry the payload's before-hash.
    StorageHashMismatch,
    /// The applied diff did not lead to the payload's after-hash.
    InvalidStorageDiff,
}

/// On-chain-style balance record mirrored inside the enclave.
#[derive(Debug, Clone, Copy, PartialEq, Eq)]
pub struct AccountData {
    pub free: Balance,
}

/// Account bookkeeping: call counter and balances.  Absent accounts read as
/// nonce zero.
#[derive(Debug, Clone, Copy, PartialEq, Eq)]
pub struct AccountInfo {
    pub nonce: Index,
    pub data: AccountData,
}

// ----- the abstract key-value state -----

/// The enclave's key-value state.  Its view is the map it holds; its
/// representation (`rep`) additionally fixes the entry order the
/// fingerprint runs over.
pub struct State {
    entries: Vec<(Vec<u8>, Vec<u8>)>,
}

impl View for State {
    type V = Map<Seq<u8>, Seq<u8>>;

    closed spec fn view(&self) -> Map<Seq<u8>, Seq<u8>> {
        map_of(self.entries@)
    }
}

impl State {
    /// The concrete entry sequence, by content.
    pub closed spec fn rep(&self) -> Seq<(Seq<u8>, Seq<u8>)> {
        Seq::new(self.entries@.len(), |i: int| (self.entries@[i].0@, self.entries@[i].1@))
    }

    /// The empty state.
    pub fn new() -> (s: State)
        ensures
            s@ == Map::<Seq<u8>, Seq<u8>>::empty(),
            s.rep() == Seq::<(Seq<u8>, Seq<u8>)>::empty(),
    {
        let s = State { entries: Vec::new() };
        proof {
            assert(s.rep() =~= Seq::<(Seq<u8>, Seq<u8>)>::empty());
        }
        s
    }

    /// Reads the value at a key.
    pub fn get<'a>(&'a self, key: &[u8]) -> (r: Option<&'a Vec<u8>>)
        ensures
            match r {
                Some(v) => self@.dom().contains(key@) && self@[key@] == v@,
                None => !self@.dom().contains(key@),
            },
    {
        assoc_get(&self.entries, key)
    }

    /// Binds a key to a value.
    pub fn set(&mut self, key: Vec<u8>, value: Vec<u8>)
        ensures
            final(self)@ == old(self)@.insert(key@, value@),
            final(self).rep() == old(self).rep().push((key@, value@)),
    {
        let ghost k = key@;
        let ghost v = value@;
        let ghost prev = self.rep();
        let ghost prev_entries = self.entries@;
        assoc_put(&mut self.entries, key, value);
        proof {
            assert(self.entries@.len() == prev_entries.len() + 1);
            assert forall|j: int| 0 <= j < self.rep().len() implies self.rep()[j] == prev.push(
                (k, v),
            )[j] by {
                if j < prev_entries.len() {
                    assert(self.entries@[j] == prev_entries[j]);
                }
            }
            assert(self.rep() =~= prev.push((k, v)));
        }
    }

    /// Drops every binding of a key.
    pub fn remove(&mut self, key: &[u8])
        ensures
            final(self)@ == old(self)@.remove(key@),
            final(self).rep() == remove_key_rep(old(self).rep(), key@),
    {
        proof {
            assert(self.rep() =~= entries_rep(self.entries@));
        }
        assoc_remove(&mut self.entries, key);
        proof {
            assert(self.rep() =~= entries_rep(self.entries@));
        }
    }

    /// A content-equal copy of the state.
    pub fn snapshot(&self) -> (r: State)
        ensures
            r@ == self@,
            r.rep() == self.rep(),
    {
        let n: usize = self.entries.len();
        let mut entries: Vec<(Vec<u8>, Vec<u8>)> = Vec::new();
        let mut i: usize = 0;
        while i < n
            invariant
                n == self.entries@.len(),
                i <= n,
                entries@.len() == i,
                forall|k: int| 0 <= k < i ==> #[trigger] entries@[k].0@ == self.entries@[k].0@
                    && entries@[k].1@ == self.entries@[k].1@,
            decreases n - i,
        {
            let key = self.entries[i].0.clone();
            let val = self.entries[i].1.clone();
            assert(key@ == self.entries@[i as int].0@ && val@ == self.entries@[i as int].1@);
            entries.push((key, val));
            i = i + 1;
        }
        let r = State { entries };
        proof {
            assert(r.rep() =~= self.rep());
            lemma_map_of_depends_on_rep(r.entries@, self.entries@);
        }
        r
    }
}

/// Two entry sequences with the same content denote the same map.
proof fn lemma_map_of_depends_on_rep(a: Seq<(Vec<u8>, Vec<u8>)>, b: Seq<(Vec<u8>, Vec<u8>)>)
    requires
        a.len() == b.len(),
        forall|k: int| 0 <= k < a.len() ==> #[trigger] a[k].0@ == b[k].0@ && a[k].1@ == b[k].1@,
    ensures
        map_of(a) == map_of(b),
    decreases a.len(),
{
    if a.len() > 0 {
        lemma_map_of_depends_on_rep(a.drop_last(), b.drop_last());
        assert(map_of(a) =~= map_of(b));
    } else {
        assert(map_of(a) =~= map_of(b));
    }
}

// ----- the state fingerprint -----

/// One byte absorbed into a fingerprint lane.
pub open spec fn fnv_step(acc: u64, byte: u8) -> u64 {
    (acc ^ (byte as u64)).wrapping_mul(0x100000001b3)
}

/// A byte string absorbed into a lane, left to right.
pub open spec fn fnv_bytes(acc: u64, b: Seq<u8>) -> u64
    decreases b.len(),
{
    if b.len() == 0 {
        acc
    } else {
        fnv_bytes(fnv_step(acc, b[0]), b.skip(1))
    }
}

/// A 64-bit word absorbed as its little-endian bytes.
pub open spec fn fnv_word(acc: u64, x: u64) -> u64 {
    fnv_bytes(acc, spec_u64_to_le_bytes(x))
}

/// One state entry absorbed: key length, key, value length, value.
pub open spec fn entry_fp(acc: u64, k: Seq<u8>, v: Seq<u8>) -> u64 {
    fnv_bytes(fnv_word(fnv_bytes(fnv_word(acc, k.len() as u64), k), v.len() as u64), v)
}

/// A whole entry sequence absorbed, first to last.
pub open spec fn entries_fp(acc: u64, s: Seq<(Seq<u8>, Seq<u8>)>) -> u64
    decreases s.len(),
{
    if s.len() == 0 {
        acc
    } else {
        entries_fp(entry_fp(acc, s[0].0, s[0].1), s.skip(1))
    }
}

/// The lane seed: the common offset basis, distinguished per lane.
pub open spec fn lane_seed(lane: u64) -> u64 {
    0xcbf29ce484222325 ^ lane
}

/// The 256-bit fingerprint of an entry sequence: four independent lanes.
pub open spec fn state_fp(s: Seq<(Seq<u8>, Seq<u8>)>) -> Seq<u8> {
    spec_u64_to_le_bytes(entries_fp(lane_seed(0), s)) + spec_u64_to_le_bytes(
        entries_fp(lane_seed(1), s),
    ) + spec_u64_to_le_bytes(entries_fp(lane_seed(2), s)) + spec_u64_to_le_bytes(
        entries_fp(lane_seed(3), s),
    )
}

fn fnv_absorb(acc0: u64, b: &[u8]) -> (r: u64)
    ensures
        r == fnv_bytes(acc0, b@),
{
    let n: usize = b.len();
    let mut acc: u64 = acc0;
    let mut i: usize = 0;
    assert(b@.skip(0) =~= b@);
    while i < n
        invariant
            n == b@.len(),
            i <= n,
            fnv_bytes(acc0, b@) == fnv_bytes(acc, b@.skip(i as int)),
        decreases n - i,
    {
        proof {
            assert(b@.skip(i as int).len() > 0);
            assert(b@.skip(i as int)[0] == b@[i as int]);
            assert(b@.skip(i as int).skip(1) =~= b@.skip(i + 1));
        }
        acc = (acc ^ (b[i] as u64)).wrapping_mul(0x100000001b3);
        i = i + 1;
    }
    assert(b@.skip(n as int) =~= Seq::<u8>::empty());
    acc
}

fn fnv_absorb_word(acc: u64, x: u64) -> (r: u64)
    ensures
        r == fnv_word(acc, x),
{
    let le = u64_to_le_bytes(x);
    fnv_absorb(acc, le.as_slice())
}

impl State {
    fn lane(&self, seed: u64) -> (r: u64)
        ensures
            r == entries_fp(seed, self.rep()),
    {
        let ghost s = self.rep();
        let n: usize = self.entries.len();
        let mut acc: u64 = seed;
        let mut i: usize = 0;
        assert(s.skip(0) =~= s);
        while i < n
            invariant
                n == self.entries@.len(),
                i <= n,
                s == self.rep(),
                entries_fp(seed, s) == entries_fp(acc, s.skip(i as int)),
            decreases n - i,
        {
            proof {
                assert(s.skip(i as int).len() > 0);
                assert(s.skip(i as int)[0] == s[i as int]);
                assert(s.skip(i as int).skip(1) =~= s.skip(i + 1));
            }
            let klen: u64 = self.entries[i].0.len() as u64;
            let vlen: u64 = self.entries[i].1.len() as u64;
            acc = fnv_absorb_word(acc, klen);
            acc = fnv_absorb(acc, self.entries[i].0.as_slice());
            acc = fnv_absorb_word(acc, vlen);
            acc = fnv_absorb(acc, self.entries[i].1.as_slice());
            i = i + 1;
        }
        assert(s.skip(n as int) =~= Seq::<(Seq<u8>, Seq<u8>)>::empty());
        acc
    }

    /// The fingerprint of the state as held.
    pub fn state_hash(&self) -> (r: H256)
        ensures
            r@ == state_fp(self.rep()),
    {
        let l0 = self.lane(0xcbf29ce484222325);
        let l1 = self.lane(0xcbf29ce484222325 ^ 1);
        let l2 = self.lane(0xcbf29ce484222325 ^ 2);
        let l3 = self.lane(0xcbf29ce484222325 ^ 3);
        let mut bytes: Vec<u8> = Vec::new();
        let mut p = u64_to_le_bytes(l0);
        bytes.append(&mut p);
        let mut p = u64_to_le_bytes(l1);
        bytes.append(&mut p);
        let mut p = u64_to_le_bytes(l2);
        bytes.append(&mut p);
        let mut p = u64_to_le_bytes(l3);
        bytes.append(&mut p);
        proof {
            assert((0xcbf29ce484222325u64 ^ 0u64) == 0xcbf29ce484222325u64) by (bit_vector);
            assert(bytes@ =~= state_fp(self.rep()));
        }
        let mut out: H256 = [0; 32];
        let mut i: usize = 0;
        while i < 32
            invariant
                i <= 32,
                bytes@.len() == 32,
                bytes@ == state_fp(self.rep()),
                forall|k: int| 0 <= k < i ==> out@[k] == bytes@[k],
            decreases 32 - i,
        {
            out[i] = bytes[i];
            i = i + 1;
        }
        assert(out@ =~= bytes@);
        out
    }
}

// ----- account records in the state -----

/// The fixed tag that account records are keyed under.
pub open spec fn account_key_prefix() -> Seq<u8> {
    seq![0x73u8, 0x79, 0x73, 0x3a, 0x61, 0x63, 0x63, 0x74]
}

/// The storage key of an account: the fixed tag followed by the full
/// account bytes, so distinct accounts never share a key.
pub open spec fn account_key_spec(a: Seq<u8>) -> Seq<u8> {
    account_key_prefix() + a
}

/// Builds the storage key where the account's record is stored.
pub fn account_key_hash(account: &AccountId) -> (r: Vec<u8>)
    ensures
        r@ == account_key_spec(account.bytes@),
{
    let mut key: Vec<u8> = Vec::new();
    key.push(0x73);
    key.push(0x79);
    key.push(0x73);
    key.push(0x3a);
    key.push(0x61);
    key.push(0x63);
    key.push(0x63);
    key.push(0x74);
    let mut i: usize = 0;
    while i < 32
        invariant
            i <= 32,
            key@ =~= account_key_prefix() + account.bytes@.take(i as int),
        decreases 32 - i,
    {
        key.push(account.bytes[i]);
        i = i + 1;
    }
    assert(key@ =~= account_key_spec(account.bytes@));
    key
}

/// The byte form of an account record: nonce, then free balance, both
/// little-endian.
pub open spec fn enc_account_info(info: AccountInfo) -> Seq<u8> {
    spec_u32_to_le_bytes(info.nonce) + spec_u128_to_le_bytes(info.data.free)
}

pub open spec fn dec_account_info(b: Seq<u8>) -> Option<AccountInfo> {
    if b.len() == 20 {
        Some(
            AccountInfo {
                nonce: spec_u32_from_le_bytes(b.take(4)),
                data: AccountData { free: spec_u128_from_le_bytes(b.skip(4)) },
            },
        )
    } else {
        None
    }
}

pub proof fn lemma_account_info_roundtrip(info: AccountInfo)
    ensures
        dec_account_info(enc_account_info(info)) == Some(info),
{
    lemma_auto_spec_u32_to_from_le_bytes();
    lemma_auto_spec_u128_to_from_le_bytes();
    let b = enc_account_info(info);
    assert(b.take(4) =~= spec_u32_to_le_bytes(info.nonce));
    assert(b.skip(4) =~= spec_u128_to_le_bytes(info.data.free));
}

/// Encodes an account record.
pub fn encode_account_info(info: &AccountInfo) -> (r: Vec<u8>)
    ensures
        r@ == enc_account_info(*info),
{
    let mut out = u32_to_le_bytes(info.nonce);
    let mut free = u128_to_le_bytes(info.data.free);
    out.append(&mut free);
    out
}

/// Decodes an account record; `None` on malformed bytes.
pub fn decode_account_info(b: &[u8]) -> (r: Option<AccountInfo>)
    ensures
        r == dec_account_info(b@),
{
    if b.len() != 20 {
        return None;
    }
    let (nb, fb) = b.split_at(4);
    assert(nb@ =~= b@.take(4));
    assert(fb@ =~= b@.skip(4));
    let nonce = u32_from_le_bytes(nb);
    let free = u128_from_le_bytes(fb);
    Some(AccountInfo { nonce, data: AccountData { free } })
}

/// What the state says about an account: its decoded record, if any.
pub open spec fn spec_get_account_info(m: Map<Seq<u8>, Seq<u8>>, who: AccountId) -> Option<
    AccountInfo,
> {
    let key = account_key_spec(who.bytes@);
    if m.dom().contains(key) {
        dec_account_info(m[key])
    } else {
        None
    }
}

/// The nonce the state expects next from an account: its record's nonce, or
/// zero for an absent account.
pub open spec fn spec_expected_nonce(m: Map<Seq<u8>, Seq<u8>>, who: AccountId) -> Index {
    match spec_get_account_info(m, who) {
        Some(info) => info.nonce,
        None => 0,
    }
}

/// Looks the account's record up in the state; `None` when absent or
/// undecodable.
pub fn get_account_info(state: &State, who: &AccountId) -> (r: Option<AccountInfo>)
    ensures
        r == spec_get_account_info(state@, *who),
{
    let key = account_key_hash(who);
    if let Some(infovec) = state.get(key.as_slice()) {
        decode_account_info(infovec.as_slice())
    } else {
        None
    }
}

/// Validates a supplied nonce: exact equality with the expected nonce, no
/// tolerance for skipped or out-of-order nonces.
pub fn validate_nonce(state: &State, who: &AccountId, nonce: Index) -> (r: Result<(), StfError>)
    ensures
        r is Ok <==> nonce == spec_expected_nonce(state@, *who),
        r is Err ==> r == Err::<(), StfError>(StfError::InvalidNonce(nonce)),
{
    let expected_nonce = match get_account_info(state, who) {
        Some(acc) => acc.nonce,
        None => 0,
    };
    if expected_nonce == nonce {
        return Ok(());
    }
    Err(StfError::InvalidNonce(nonce))
}

/// Increments the account's nonce after a successfully dispatched call.
/// Callers validate first; an absent account leaves the state unchanged (a
/// condition that is a programming error elsewhere, not a panic here).
pub fn increment_nonce(state: &mut State, account: &AccountId)
    requires
        spec_get_account_info(old(state)@, *account) matches Some(info) ==> info.nonce
            < u32::MAX,
    ensures
        match spec_get_account_info(old(state)@, *account) {
            Some(info) => final(state)@ == old(state)@.insert(
                account_key_spec(account.bytes@),
                enc_account_info(
                    AccountInfo { nonce: (info.nonce + 1) as Index, data: info.data },
                ),
            ),
            None => *final(state) == *old(state),
        },
        spec_get_account_info(old(state)@, *account) is Some ==> spec_expected_nonce(
            final(state)@,
            *account,
        ) == spec_expected_nonce(old(state)@, *account) + 1,
{
    if let Some(acc_info) = get_account_info(state, account) {
        let bumped = AccountInfo { nonce: acc_info.nonce + 1, data: acc_info.data };
        let key = account_key_hash(account);
        let encoded = encode_account_info(&bumped);
        state.set(key, encoded);
        proof {
            lemma_account_info_roundtrip(bumped);
        }
    }
}

/// Nonce monotonicity: an absent account expects nonce zero; a successful
/// increment raises the expected nonce by exactly one and changes nothing
/// else about what validation accepts; validation succeeds exactly on the
/// expected nonce (by `validate_nonce`'s contract).
pub proof fn lemma_nonce_monotonicity(m: Map<Seq<u8>, Seq<u8>>, who: AccountId)
    ensures
        !m.dom().contains(account_key_spec(who.bytes@)) ==> spec_expected_nonce(m, who) == 0,
        spec_get_account_info(m, who) matches Some(info) ==> spec_expected_nonce(
            m.insert(
                account_key_spec(who.bytes@),
                enc_account_info(
                    AccountInfo { nonce: ((info.nonce + 1) as Index), data: info.data },
                ),
            ),
            who,
        ) == ((info.nonce + 1) as Index),
{
    if let Some(info) = spec_get_account_info(m, who) {
        let bumped = AccountInfo { nonce: ((info.nonce + 1) as Index), data: info.data };
        lemma_account_info_roundtrip(bumped);
    }
}

/// The state map after `k` successful nonce increments of `who`, each as
/// `increment_nonce` performs it.
pub open spec fn spec_after_increments(m: Map<Seq<u8>, Seq<u8>>, who: AccountId, k: nat) -> Map<
    Seq<u8>,
    Seq<u8>,
>
    decreases k,
{
    if k == 0 {
        m
    } else {
        let prev = spec_after_increments(m, who, (k - 1) as nat);
        match spec_get_account_info(prev, who) {
            Some(info) => prev.insert(
                account_key_spec(who.bytes@),
                enc_account_info(
                    AccountInfo { nonce: ((info.nonce + 1) as Index), data: info.data },
                ),
            ),
            None => prev,
        }
    }
}

/// The nonce counts the successful increments: starting from an account
/// record at nonce zero, after `k` increments the state expects exactly
/// nonce `k` — so `validate_nonce` accepts `n` if and only if `n` equals
/// the number of prior increments.
pub proof fn lemma_nonce_counts_increments(
    m: Map<Seq<u8>, Seq<u8>>,
    who: AccountId,
    info0: AccountInfo,
    k: nat,
)
    requires
        spec_get_account_info(m, who) == Some(info0),
        info0.nonce == 0,
        k <= u32::MAX,
    ensures
        spec_expected_nonce(spec_after_increments(m, who, k), who) == k,
        spec_get_account_info(spec_after_increments(m, who, k), who) matches Some(info)
            && info.nonce == k,
    decreases k,
{
    if k > 0 {
        lemma_nonce_counts_increments(m, who, info0, (k - 1) as nat);
        let prev = spec_after_increments(m, who, (k - 1) as nat);
        let info = spec_get_account_info(prev, who).unwrap();
        let bumped = AccountInfo { nonce: ((info.nonce + 1) as Index), data: info.data };
        lemma_account_info_roundtrip(bumped);
    }
}

// ----- the state-transition payload -----

/// The state diff a call execution produced: per key, a new value or a
/// removal.
pub type StateTypeDiff = Vec<(Vec<u8>, Option<Vec<u8>>)>;

/// Payload describing one state update: the diff together with the state
/// fingerprints before and after its application.  Immutable once built.
#[derive(Debug)]
pub struct StatePayload {
    pub state_hash_apriori: H256,
    pub state_hash_aposteriori: H256,
    pub state_update: StateTypeDiff,
}

impl StatePayload {
    /// The state fingerprint before the update was applied.
    pub fn state_hash_apriori(&self) -> (r: H256)
        ensures
            r == self.state_hash_apriori,
    {
        self.state_hash_apriori
    }

    /// The state fingerprint after the update was applied.
    pub fn state_hash_aposteriori(&self) -> (r: H256)
        ensures
            r == self.state_hash_aposteriori,
    {
        self.state_hash_aposteriori
    }

    /// The state diff itself.
    pub fn state_update(&self) -> (r: &StateTypeDiff)
        ensures
            r == &self.state_update,
    {
        &self.state_update
    }

    /// Builds a new payload.
    pub fn new(apriori: H256, aposteriori: H256, update: StateTypeDiff) -> (r: StatePayload)
        ensures
            r.state_hash_apriori == apriori,
            r.state_hash_aposteriori == aposteriori,
            r.state_update == update,
    {
        StatePayload {
            state_hash_apriori: apriori,
            state_hash_aposteriori: aposteriori,
            state_update: update,
        }
    }
}

/// What a diff does to a state map, entry by entry, first to last.
pub open spec fn apply_diff_spec(
    m: Map<Seq<u8>, Seq<u8>>,
    d: Seq<(Vec<u8>, Option<Vec<u8>>)>,
) -> Map<Seq<u8>, Seq<u8>>
    decreases d.len(),
{
    if d.len() == 0 {
        m
    } else {
        let rest = apply_diff_spec(m, d.drop_last());
        match d.last().1 {
            Some(v) => rest.insert(d.last().0@, v@),
            None => rest.remove(d.last().0@),
        }
    }
}

/// What a diff does to the state's concrete entry sequence.
pub open spec fn apply_diff_rep(
    rep: Seq<(Seq<u8>, Seq<u8>)>,
    d: Seq<(Vec<u8>, Option<Vec<u8>>)>,
) -> Seq<(Seq<u8>, Seq<u8>)>
    decreases d.len(),
{
    if d.len() == 0 {
        rep
    } else {
        let rest = apply_diff_rep(rep, d.drop_last());
        match d.last().1 {
            Some(v) => rest.push((d.last().0@, v@)),
            None => remove_key_rep(rest, d.last().0@),
        }
    }
}

fn apply_diff(state: &mut State, diff: &StateTypeDiff)
    ensures
        final(state)@ == apply_diff_spec(old(state)@, diff@),
        final(state).rep() == apply_diff_rep(old(state).rep(), diff@),
{
    let n: usize = diff.len();
    let mut i: usize = 0;
    assert(diff@.take(0) =~= Seq::<(Vec<u8>, Option<Vec<u8>>)>::empty());
    while i < n
        invariant
            n == diff@.len(),
            i <= n,
            state@ == apply_diff_spec(old(state)@, diff@.take(i as int)),
            state.rep() == apply_diff_rep(old(state).rep(), diff@.take(i as int)),
        decreases n - i,
    {
        assert(diff@.take(i + 1).drop_last() =~= diff@.take(i as int));
        assert(diff@.take(i + 1).last() == diff@[i as int]);
        match &diff[i].1 {
            Some(v) => {
                let key = diff[i].0.clone();
                let val = v.clone();
                assert(key@ == diff@[i as int].0@ && val@ == diff@[i as int].1.unwrap()@);
                state.set(key, val);
            },
            None => {
                state.remove(diff[i].0.as_slice());
            },
        }
        i = i + 1;
    }
    assert(diff@.take(n as int) =~= diff@);
}

/// Verifies and applies a state update, all or nothing: the diff is applied
/// only to a state carrying the payload's before-fingerprint, and is rolled
/// back whole unless the result carries the after-fingerprint.
pub fn apply_state_payload(state: &mut State, payload: &StatePayload) -> (r: Result<(), StfError>)
    ensures
        r == Err::<(), StfError>(StfError::StorageHashMismatch) <==> payload.state_hash_apriori@
            != state_fp(old(state).rep()),
        r == Err::<(), StfError>(StfError::InvalidStorageDiff) <==> payload.state_hash_apriori@
            == state_fp(old(state).rep()) && payload.state_hash_aposteriori@ != state_fp(
            apply_diff_rep(old(state).rep(), payload.state_update@),
        ),
        r is Ok <==> payload.state_hash_apriori@ == state_fp(old(state).rep())
            && payload.state_hash_aposteriori@ == state_fp(
            apply_diff_rep(old(state).rep(), payload.state_update@),
        ),
        r is Err ==> final(state)@ == old(state)@ && final(state).rep() == old(state).rep(),
        r is Ok ==> final(state)@ == apply_diff_spec(old(state)@, payload.state_update@)
            && final(state).rep() == apply_diff_rep(old(state).rep(), payload.state_update@)
            && state_fp(final(state).rep()) == payload.state_hash_aposteriori@,
{
    let current = state.state_hash();
    if !crate::types::h256_eq(&current, &payload.state_hash_apriori) {
        return Err(StfError::StorageHashMismatch);
    }
    let backup = state.snapshot();
    apply_diff(state, &payload.state_update);
    let after = state.state_hash();
    if !crate::types::h256_eq(&after, &payload.state_hash_aposteriori) {
        *state = backup;
        return Err(StfError::InvalidStorageDiff);
    }
    Ok(())
}

// ----- shard storage hooks -----

/// The storage hashes to update for a shard; the enclave subscribes to no
/// shard-wide values, so there are none.
pub fn storage_hashes_to_update_per_shard(_shard: &ShardIdentifier) -> (r: Vec<Vec<u8>>)
    ensures
        r@.len() == 0,
{
    Vec::new()
}

/// The storage key of the shard list; empty, matching the subscription
/// above.
pub fn shards_key_hash() -> (r: Vec<u8>)
    ensures
        r@.len() == 0,
{
    Vec::new()
}

} // verus!
