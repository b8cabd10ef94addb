//! The NFT registry: an associative structure of resource records plus a
//! block-number watermark, and its persistence helper that flattens it to a
//! pair list, seals it with backup, and reconstructs it on load.

use vstd::prelude::*;
use vstd::bytes::{
    spec_u32_to_le_bytes,
    spec_u32_from_le_bytes,
    lemma_auto_spec_u32_to_from_le_bytes,
    u32_from_le_bytes,
    u32_to_le_bytes,
};
use crate::sealed_store::{SealedStore, StoreError, seal_spec, backup_path_spec};
use crate::types::{AccountId, BlockNumber, NFTId, bytes_eq, h256_eq};

verus! {

/// Domain details of one NFT record.
#[derive(Debug, Clone, PartialEq, Eq)]
pub struct NFTDetails {
    pub offchain_uri: Vec<u8>,
    pub series_id: u32,
    pub is_capsule: bool,
}

impl NFTDetails {
    pub fn new(offchain_uri: Vec<u8>, series_id: u32, is_capsule: bool) -> (r: Self)
        ensures
            r.offchain_uri == offchain_uri,
            r.series_id == series_id,
            r.is_capsule == is_capsule,
    {
        NFTDetails { offchain_uri, series_id, is_capsule }
    }
}

/// One registry record: resource data, owner, flags.
#[derive(Debug, Clone, PartialEq, Eq)]
pub struct NFTData {
    pub owner: AccountId,
    pub details: NFTDetails,
    pub sealed: bool,
    pub locked: bool,
}

/// The mathematical content of a record.
pub ghost struct NFTDataView {
    pub owner: Seq<u8>,
    pub offchain_uri: Seq<u8>,
    pub series_id: u32,
    pub is_capsule: bool,
    pub sealed: bool,
    pub locked: bool,
}

impl View for NFTData {
    type V = NFTDataView;

    open spec fn view(&self) -> NFTDataView {
        NFTDataView {
            owner: self.owner.bytes@,
            offchain_uri: self.details.offchain_uri@,
            series_id: self.details.series_id,
            is_capsule: self.details.is_capsule,
            sealed: self.sealed,
            locked: self.locked,
        }
    }
}

impl NFTData {
    pub fn new(owner: AccountId, details: NFTDetails, sealed: bool, locked: bool) -> (r: Self)
        ensures
            r.owner == owner,
            r.details == details,
            r.sealed == sealed,
            r.locked == locked,
    {
        NFTData { owner, details, sealed, locked }
    }
}

/// A field-exact copy of a record.
pub fn clone_nft_data(d: &NFTData) -> (r: NFTData)
    ensures
        r@ == d@,
{
    let uri = d.details.offchain_uri.clone();
    assert(uri@ =~= d.details.offchain_uri@);
    NFTData {
        owner: d.owner,
        details: NFTDetails {
            offchain_uri: uri,
            series_id: d.details.series_id,
            is_capsule: d.details.is_capsule,
        },
        sealed: d.sealed,
        locked: d.locked,
    }
}

/// Record equality, decided on the mathematical content.
pub fn nft_data_eq(a: &NFTData, b: &NFTData) -> (r: bool)
    ensures
        r == (a@ == b@),
{
    let owners = h256_eq(&a.owner.bytes, &b.owner.bytes);
    let uris = bytes_eq(a.details.offchain_uri.as_slice(), b.details.offchain_uri.as_slice());
    owners && uris && a.details.series_id == b.details.series_id && a.details.is_capsule
        == b.details.is_capsule && a.sealed == b.sealed && a.locked == b.locked
}

/// The record views of an entry sequence.
pub open spec fn entries_view(s: Seq<(NFTId, NFTData)>) -> Seq<(NFTId, NFTDataView)> {
    Seq::new(s.len(), |i: int| (s[i].0, s[i].1@))
}

/// The map an entry-view sequence denotes; later entries shadow earlier ones.
pub open spec fn reg_map_of(s: Seq<(NFTId, NFTDataView)>) -> Map<NFTId, NFTDataView>
    decreases s.len(),
{
    if s.len() == 0 {
        Map::empty()
    } else {
        reg_map_of(s.drop_last()).insert(s.last().0, s.last().1)
    }
}

/// The in-memory registry: record map as entry list, ordered id index, and
/// the block-number watermark up to which it reflects the chain.
#[derive(Debug)]
pub struct NFTRegistry {
    pub block_number: BlockNumber,
    pub registry: Vec<(NFTId, NFTData)>,
    pub nft_ids: Vec<NFTId>,
}

impl NFTRegistry {
    pub fn new(block_number: BlockNumber, registry: Vec<(NFTId, NFTData)>, nft_ids: Vec<NFTId>)
        -> (r: Self)
        ensures
            r.block_number == block_number,
            r.registry == registry,
            r.nft_ids == nft_ids,
    {
        NFTRegistry { block_number, registry, nft_ids }
    }

    /// Looks a record up by id; the result is what the map view assigns.
    pub fn get(&self, nft_id: NFTId) -> (r: Option<&NFTData>)
        ensures
            match r {
                Some(d) => reg_map_of(entries_view(self.registry@)).dom().contains(nft_id)
                    && reg_map_of(entries_view(self.registry@))[nft_id] == d@,
                None => !reg_map_of(entries_view(self.registry@)).dom().contains(nft_id),
            },
    {
        let ghost s = entries_view(self.registry@);
        let mut j: usize = self.registry.len();
        assert(s.take(j as int) =~= s);
        while j > 0
            invariant
                j <= self.registry@.len(),
                s == entries_view(self.registry@),
                reg_map_of(s).dom().contains(nft_id) == reg_map_of(s.take(j as int)).dom().contains(
                    nft_id,
                ),
                reg_map_of(s).dom().contains(nft_id) ==> reg_map_of(s)[nft_id] == reg_map_of(
                    s.take(j as int),
                )[nft_id],
            decreases j,
        {
            assert(s.take(j as int).drop_last() =~= s.take(j - 1));
            assert(s.take(j as int).last() == s[j - 1]);
            if self.registry[j - 1].0 == nft_id {
                return Some(&self.registry[j - 1].1);
            }
            j = j - 1;
        }
        assert(s.take(0) =~= Seq::<(NFTId, NFTDataView)>::empty());
        None
    }
}

impl Default for NFTRegistry {
    /// An empty registry at watermark zero.
    fn default() -> (r: Self)
        ensures
            r.block_number == 0,
            r.registry@.len() == 0,
            r.nft_ids@.len() == 0,
    {
        NFTRegistry { block_number: 0, registry: Vec::new(), nft_ids: Vec::new() }
    }
}

impl PartialEq for NFTRegistry {
    /// Two registries are equal when their watermark and their record
    /// sequences agree; the id index is derived data and not compared.
    fn eq(&self, other: &Self) -> (r: bool) {
        if self.block_number != other.block_number {
            return false;
        }
        if self.registry.len() != other.registry.len() {
            assert(entries_view(self.registry@).len() != entries_view(other.registry@).len());
            return false;
        }
        let n: usize = self.registry.len();
        let ghost sa = entries_view(self.registry@);
        let ghost sb = entries_view(other.registry@);
        let mut i: usize = 0;
        while i < n
            invariant
                n == self.registry@.len() == other.registry@.len(),
                i <= n,
                sa == entries_view(self.registry@),
                sb == entries_view(other.registry@),
                forall|k: int| 0 <= k < i ==> sa[k] == sb[k],
            decreases n - i,
        {
            if self.registry[i].0 != other.registry[i].0 {
                assert(sa[i as int] != sb[i as int]);
                assert(sa != sb);
                return false;
            }
            if !nft_data_eq(&self.registry[i].1, &other.registry[i].1) {
                assert(sa[i as int] != sb[i as int]);
                assert(sa != sb);
                return false;
            }
            assert(sa[i as int] == sb[i as int]);
            i = i + 1;
        }
        assert(sa =~= sb);
        true
    }
}

impl vstd::std_specs::cmp::PartialEqSpecImpl for NFTRegistry {
    open spec fn obeys_eq_spec() -> bool {
        true
    }

    open spec fn eq_spec(&self, other: &Self) -> bool {
        self.block_number == other.block_number && entries_view(self.registry@) == entries_view(
            other.registry@,
        )
    }
}

// ----- the sealed flat encoding: watermark, entry count, then the entries -----

/// What an encodable record satisfies: a 32-byte owner and a URI whose
/// length fits the length field.
pub open spec fn wf_data_view(d: NFTDataView) -> bool {
    d.owner.len() == 32 && d.offchain_uri.len() <= u32::MAX
}

pub open spec fn wf_entries(s: Seq<(NFTId, NFTDataView)>) -> bool {
    s.len() <= u32::MAX && forall|i: int| 0 <= i < s.len() ==> wf_data_view(#[trigger] s[i].1)
}

pub open spec fn enc_bool(v: bool) -> Seq<u8> {
    if v {
        seq![1u8]
    } else {
        seq![0u8]
    }
}

pub open spec fn enc_data(d: NFTDataView) -> Seq<u8> {
    d.owner + spec_u32_to_le_bytes(d.offchain_uri.len() as u32) + d.offchain_uri
        + spec_u32_to_le_bytes(d.series_id) + enc_bool(d.is_capsule) + enc_bool(d.sealed)
        + enc_bool(d.locked)
}

pub open spec fn enc_entry(e: (NFTId, NFTDataView)) -> Seq<u8> {
    spec_u32_to_le_bytes(e.0) + enc_data(e.1)
}

pub open spec fn enc_entries(s: Seq<(NFTId, NFTDataView)>) -> Seq<u8>
    decreases s.len(),
{
    if s.len() == 0 {
        Seq::empty()
    } else {
        enc_entry(s[0]) + enc_entries(s.subrange(1, s.len() as int))
    }
}

/// The flat form that is sealed: watermark, entry count, entries in order.
pub open spec fn enc_helper(s: Seq<(NFTId, NFTDataView)>, block_number: u32) -> Seq<u8> {
    spec_u32_to_le_bytes(block_number) + spec_u32_to_le_bytes(s.len() as u32) + enc_entries(s)
}

pub open spec fn dec_u32(b: Seq<u8>) -> Option<(u32, Seq<u8>)> {
    if b.len() >= 4 {
        Some((spec_u32_from_le_bytes(b.take(4)), b.skip(4)))
    } else {
        None
    }
}

pub open spec fn dec_fixed(b: Seq<u8>, n: nat) -> Option<(Seq<u8>, Seq<u8>)> {
    if b.len() >= n {
        Some((b.take(n as int), b.skip(n as int)))
    } else {
        None
    }
}

pub open spec fn dec_bool(b: Seq<u8>) -> Option<(bool, Seq<u8>)> {
    if b.len() >= 1 {
        if b[0] == 1 {
            Some((true, b.skip(1)))
        } else if b[0] == 0 {
            Some((false, b.skip(1)))
        } else {
            None
        }
    } else {
        None
    }
}

pub open spec fn dec_data(b: Seq<u8>) -> Option<(NFTDataView, Seq<u8>)> {
    match dec_fixed(b, 32) {
        None => None,
        Some((owner, b1)) => match dec_u32(b1) {
            None => None,
            Some((ulen, b2)) => match dec_fixed(b2, ulen as nat) {
                None => None,
                Some((uri, b3)) => match dec_u32(b3) {
                    None => None,
                    Some((series, b4)) => match dec_bool(b4) {
                        None => None,
                        Some((cap, b5)) => match dec_bool(b5) {
                            None => None,
                            Some((sl, b6)) => match dec_bool(b6) {
                                None => None,
                                Some((lk, b7)) => Some(
                                    (
                                        NFTDataView {
                                            owner,
                                            offchain_uri: uri,
                                            series_id: series,
                                            is_capsule: cap,
                                            sealed: sl,
                                            locked: lk,
                                        },
                                        b7,
                                    ),
                                ),
                            },
                        },
                    },
                },
            },
        },
    }
}

pub open spec fn dec_entry(b: Seq<u8>) -> Option<((NFTId, NFTDataView), Seq<u8>)> {
    match dec_u32(b) {
        None => None,
        Some((id, b1)) => match dec_data(b1) {
            None => None,
            Some((d, b2)) => Some(((id, d), b2)),
        },
    }
}

pub open spec fn dec_entries(b: Seq<u8>, n: nat) -> Option<(Seq<(NFTId, NFTDataView)>, Seq<u8>)>
    decreases n,
{
    if n == 0 {
        Some((Seq::empty(), b))
    } else {
        match dec_entry(b) {
            None => None,
            Some((e, b1)) => match dec_entries(b1, (n - 1) as nat) {
                None => None,
                Some((s, b2)) => Some((seq![e] + s, b2)),
            },
        }
    }
}

/// The decoded form of a sealed blob: entries and watermark; the whole blob
/// must be consumed.
pub open spec fn dec_helper(b: Seq<u8>) -> Option<(Seq<(NFTId, NFTDataView)>, u32)> {
    match dec_u32(b) {
        None => None,
        Some((block, b1)) => match dec_u32(b1) {
            None => None,
            Some((n, b2)) => match dec_entries(b2, n as nat) {
                None => None,
                Some((s, b3)) => if b3.len() == 0 {
                    Some((s, block))
                } else {
                    None
                },
            },
        },
    }
}

pub proof fn lemma_dec_u32_enc(x: u32, rest: Seq<u8>)
    ensures
        dec_u32(spec_u32_to_le_bytes(x) + rest) == Some((x, rest)),
{
    lemma_auto_spec_u32_to_from_le_bytes();
    let b = spec_u32_to_le_bytes(x) + rest;
    assert(b.take(4) =~= spec_u32_to_le_bytes(x));
    assert(b.skip(4) =~= rest);
}

pub proof fn lemma_dec_fixed_enc(data: Seq<u8>, rest: Seq<u8>)
    ensures
        dec_fixed(data + rest, data.len()) == Some((data, rest)),
{
    let b = data + rest;
    assert(b.take(data.len() as int) =~= data);
    assert(b.skip(data.len() as int) =~= rest);
}

pub proof fn lemma_dec_bool_enc(v: bool, rest: Seq<u8>)
    ensures
        dec_bool(enc_bool(v) + rest) == Some((v, rest)),
{
    let b = enc_bool(v) + rest;
    assert(b[0] == if v {
        1u8
    } else {
        0u8
    });
    assert(b.skip(1) =~= rest);
}

pub proof fn lemma_dec_data_enc(d: NFTDataView, rest: Seq<u8>)
    requires
        wf_data_view(d),
    ensures
        dec_data(enc_data(d) + rest) == Some((d, rest)),
{
    let t7 = rest;
    let t6 = enc_bool(d.locked) + t7;
    let t5 = enc_bool(d.sealed) + t6;
    let t4 = enc_bool(d.is_capsule) + t5;
    let t3 = spec_u32_to_le_bytes(d.series_id) + t4;
    let t2 = d.offchain_uri + t3;
    let t1 = spec_u32_to_le_bytes(d.offchain_uri.len() as u32) + t2;
    let t0 = d.owner + t1;
    assert(enc_data(d) + rest =~= t0);
    lemma_dec_fixed_enc(d.owner, t1);
    assert(dec_fixed(t0, 32) == Some((d.owner, t1)));
    lemma_dec_u32_enc(d.offchain_uri.len() as u32, t2);
    lemma_dec_fixed_enc(d.offchain_uri, t3);
    assert((d.offchain_uri.len() as u32) as nat == d.offchain_uri.len());
    lemma_dec_u32_enc(d.series_id, t4);
    lemma_dec_bool_enc(d.is_capsule, t5);
    lemma_dec_bool_enc(d.sealed, t6);
    lemma_dec_bool_enc(d.locked, t7);
}

pub proof fn lemma_dec_entry_enc(e: (NFTId, NFTDataView), rest: Seq<u8>)
    requires
        wf_data_view(e.1),
    ensures
        dec_entry(enc_entry(e) + rest) == Some((e, rest)),
{
    let t1 = enc_data(e.1) + rest;
    assert(enc_entry(e) + rest =~= spec_u32_to_le_bytes(e.0) + t1);
    lemma_dec_u32_enc(e.0, t1);
    lemma_dec_data_enc(e.1, rest);
}

pub proof fn lemma_dec_entries_enc(s: Seq<(NFTId, NFTDataView)>, rest: Seq<u8>)
    requires
        forall|i: int| 0 <= i < s.len() ==> wf_data_view(#[trigger] s[i].1),
    ensures
        dec_entries(enc_entries(s) + rest, s.len()) == Some((s, rest)),
    decreases s.len(),
{
    if s.len() == 0 {
        assert(enc_entries(s) + rest =~= rest);
        assert(s =~= Seq::<(NFTId, NFTDataView)>::empty());
    } else {
        let tail = s.subrange(1, s.len() as int);
        let t1 = enc_entries(tail) + rest;
        assert(enc_entries(s) + rest =~= enc_entry(s[0]) + t1);
        lemma_dec_entry_enc(s[0], t1);
        lemma_dec_entries_enc(tail, rest);
        assert(seq![s[0]] + tail =~= s);
    }
}

/// Round-trip of the flat encoding: decoding what was encoded yields exactly
/// the entries and the watermark, whatever they were.
pub proof fn lemma_registry_roundtrip(s: Seq<(NFTId, NFTDataView)>, block_number: u32)
    requires
        wf_entries(s),
    ensures
        dec_helper(enc_helper(s, block_number)) == Some((s, block_number)),
{
    let t2 = enc_entries(s);
    let t1 = spec_u32_to_le_bytes(s.len() as u32) + t2;
    assert(enc_helper(s, block_number) =~= spec_u32_to_le_bytes(block_number) + t1);
    lemma_dec_u32_enc(block_number, t1);
    lemma_dec_u32_enc(s.len() as u32, t2);
    lemma_dec_entries_enc(s, Seq::empty());
    assert(enc_entries(s) + Seq::<u8>::empty() =~= enc_entries(s));
    assert((s.len() as u32) as nat == s.len());
}

pub proof fn lemma_enc_entries_push(s: Seq<(NFTId, NFTDataView)>, e: (NFTId, NFTDataView))
    ensures
        enc_entries(s.push(e)) == enc_entries(s) + enc_entry(e),
    decreases s.len(),
{
    if s.len() == 0 {
        assert(s.push(e)[0] == e);
        assert(s.push(e).subrange(1, 1) =~= Seq::<(NFTId, NFTDataView)>::empty());
        assert(enc_entries(s.push(e)) == enc_entry(e) + enc_entries(s.push(e).subrange(1, 1)));
        assert(enc_entries(s.push(e).subrange(1, 1)) =~= Seq::<u8>::empty());
        assert(enc_entries(s) =~= Seq::<u8>::empty());
        assert(enc_entry(e) + Seq::<u8>::empty() =~= Seq::<u8>::empty() + enc_entry(e));
    } else {
        let tail = s.subrange(1, s.len() as int);
        assert(s.push(e).subrange(1, (s.len() + 1) as int) =~= tail.push(e));
        assert(s.push(e)[0] == s[0]);
        assert(enc_entries(s.push(e)) == enc_entry(s[0]) + enc_entries(tail.push(e)));
        lemma_enc_entries_push(tail, e);
        assert(enc_entries(s) == enc_entry(s[0]) + enc_entries(tail));
        assert(enc_entry(s[0]) + (enc_entries(tail) + enc_entry(e)) =~= (enc_entry(s[0])
            + enc_entries(tail)) + enc_entry(e));
    }
}

// ----- executable encoder -----

fn push_bytes(out: &mut Vec<u8>, b: &[u8])
    ensures
        final(out)@ == old(out)@ + b@,
{
    let ghost prefix = out@;
    let n: usize = b.len();
    let mut i: usize = 0;
    while i < n
        invariant
            n == b@.len(),
            i <= n,
            out@ =~= prefix + b@.take(i as int),
        decreases n - i,
    {
        out.push(b[i]);
        i = i + 1;
    }
    assert(out@ =~= prefix + b@);
}

fn push_u32(out: &mut Vec<u8>, x: u32)
    ensures
        final(out)@ == old(out)@ + spec_u32_to_le_bytes(x),
{
    let mut le = u32_to_le_bytes(x);
    out.append(&mut le);
}

fn push_bool(out: &mut Vec<u8>, v: bool)
    ensures
        final(out)@ == old(out)@ + enc_bool(v),
{
    let ghost prefix = out@;
    if v {
        out.push(1);
    } else {
        out.push(0);
    }
    assert(out@ =~= prefix + enc_bool(v));
}

fn encode_data(out: &mut Vec<u8>, d: &NFTData)
    requires
        d.details.offchain_uri@.len() <= u32::MAX,
    ensures
        final(out)@ == old(out)@ + enc_data(d@),
{
    let ghost prefix = out@;
    push_bytes(out, d.owner.bytes.as_slice());
    let ulen: u32 = d.details.offchain_uri.len() as u32;
    push_u32(out, ulen);
    push_bytes(out, d.details.offchain_uri.as_slice());
    push_u32(out, d.details.series_id);
    push_bool(out, d.details.is_capsule);
    push_bool(out, d.sealed);
    push_bool(out, d.locked);
    assert(out@ =~= prefix + enc_data(d@));
}

/// Encodes the flat form of a helper to bytes.
pub fn encode_helper(h: &NFTRegistryStorageHelper) -> (r: Vec<u8>)
    requires
        wf_entries(entries_view(h.registry@)),
    ensures
        r@ == enc_helper(entries_view(h.registry@), h.block_number),
{
    let ghost s = entries_view(h.registry@);
    let mut out: Vec<u8> = Vec::new();
    push_u32(&mut out, h.block_number);
    let n: usize = h.registry.len();
    push_u32(&mut out, n as u32);
    let ghost header = spec_u32_to_le_bytes(h.block_number) + spec_u32_to_le_bytes(
        h.registry@.len() as u32,
    );
    assert(out@ =~= header + enc_entries(s.take(0)));
    let mut i: usize = 0;
    while i < n
        invariant
            n == h.registry@.len(),
            i <= n,
            s == entries_view(h.registry@),
            wf_entries(s),
            header == spec_u32_to_le_bytes(h.block_number) + spec_u32_to_le_bytes(
                h.registry@.len() as u32,
            ),
            out@ == header + enc_entries(s.take(i as int)),
        decreases n - i,
    {
        let ghost before = out@;
        push_u32(&mut out, h.registry[i].0);
        assert(s[i as int].1 == h.registry@[i as int].1@);
        assert(wf_data_view(s[i as int].1));
        encode_data(&mut out, &h.registry[i].1);
        proof {
            lemma_enc_entries_push(s.take(i as int), s[i as int]);
            assert(s.take(i + 1) =~= s.take(i as int).push(s[i as int]));
            assert(out@ =~= header + enc_entries(s.take(i + 1)));
        }
        i = i + 1;
    }
    assert(s.take(n as int) =~= s);
    assert(out@ =~= enc_helper(s, h.block_number));
    out
}

// ----- executable decoder -----

pub(crate) fn parse_u32<'a>(b: &'a [u8]) -> (r: Option<(u32, &'a [u8])>)
    ensures
        match r {
            Some(p) => dec_u32(b@) == Some((p.0, p.1@)),
            None => dec_u32(b@) is None,
        },
{
    if b.len() < 4 {
        None
    } else {
        let (head, rest) = b.split_at(4);
        assert(head@ =~= b@.take(4));
        assert(rest@ =~= b@.skip(4));
        let x = u32_from_le_bytes(head);
        Some((x, rest))
    }
}

fn parse_fixed<'a>(b: &'a [u8], n: usize) -> (r: Option<(&'a [u8], &'a [u8])>)
    ensures
        match r {
            Some(p) => dec_fixed(b@, n as nat) == Some((p.0@, p.1@)),
            None => dec_fixed(b@, n as nat) is None,
        },
{
    if b.len() < n {
        None
    } else {
        let (head, rest) = b.split_at(n);
        assert(head@ =~= b@.take(n as int));
        assert(rest@ =~= b@.skip(n as int));
        Some((head, rest))
    }
}

fn parse_bool<'a>(b: &'a [u8]) -> (r: Option<(bool, &'a [u8])>)
    ensures
        match r {
            Some(p) => dec_bool(b@) == Some((p.0, p.1@)),
            None => dec_bool(b@) is None,
        },
{
    if b.len() < 1 {
        None
    } else {
        let (_, rest) = b.split_at(1);
        assert(rest@ =~= b@.skip(1));
        let c = b[0];
        if c == 1 {
            Some((true, rest))
        } else if c == 0 {
            Some((false, rest))
        } else {
            None
        }
    }
}

fn parse_data<'a>(b: &'a [u8]) -> (r: Option<(NFTData, &'a [u8])>)
    ensures
        match r {
            Some(p) => dec_data(b@) == Some((p.0@, p.1@)),
            None => dec_data(b@) is None,
        },
{
    let (owner_s, b1) = match parse_fixed(b, 32) {
        Some(p) => p,
        None => {
            return None;
        },
    };
    let mut owner: [u8; 32] = [0; 32];
    let mut i: usize = 0;
    while i < 32
        invariant
            i <= 32,
            owner_s@.len() == 32,
            forall|k: int| 0 <= k < i ==> owner@[k] == owner_s@[k],
        decreases 32 - i,
    {
        owner[i] = owner_s[i];
        i = i + 1;
    }
    assert(owner@ =~= owner_s@);
    let (ulen, b2) = match parse_u32(b1) {
        Some(p) => p,
        None => {
            return None;
        },
    };
    let (uri_s, b3) = match parse_fixed(b2, ulen as usize) {
        Some(p) => p,
        None => {
            return None;
        },
    };
    let mut uri: Vec<u8> = Vec::new();
    uri.extend_from_slice(uri_s);
    assert(uri@ =~= uri_s@);
    let (series, b4) = match parse_u32(b3) {
        Some(p) => p,
        None => {
            return None;
        },
    };
    let (cap, b5) = match parse_bool(b4) {
        Some(p) => p,
        None => {
            return None;
        },
    };
    let (sl, b6) = match parse_bool(b5) {
        Some(p) => p,
        None => {
            return None;
        },
    };
    let (lk, b7) = match parse_bool(b6) {
        Some(p) => p,
        None => {
            return None;
        },
    };
    let data = NFTData {
        owner: AccountId { bytes: owner },
        details: NFTDetails { offchain_uri: uri, series_id: series, is_capsule: cap },
        sealed: sl,
        locked: lk,
    };
    Some((data, b7))
}

fn parse_entries<'a>(b: &'a [u8], n: u32) -> (r: Option<(Vec<(NFTId, NFTData)>, &'a [u8])>)
    ensures
        match r {
            Some(p) => dec_entries(b@, n as nat) == Some((entries_view(p.0@), p.1@)),
            None => dec_entries(b@, n as nat) is None,
        },
    decreases n,
{
    if n == 0 {
        let out: Vec<(NFTId, NFTData)> = Vec::new();
        assert(entries_view(out@) =~= Seq::<(NFTId, NFTDataView)>::empty());
        Some((out, b))
    } else {
        let (id, b1) = match parse_u32(b) {
            Some(p) => p,
            None => {
                return None;
            },
        };
        let (data, b2) = match parse_data(b1) {
            Some(p) => p,
            None => {
                assert(dec_entry(b@) is None);
                return None;
            },
        };
        assert(dec_entry(b@) == Some(((id, data@), b2@)));
        let (mut restv, b3) = match parse_entries(b2, n - 1) {
            Some(p) => p,
            None => {
                return None;
            },
        };
        let ghost prev = restv@;
        restv.insert(0, (id, data));
        assert(entries_view(restv@) =~= seq![(id, data@)] + entries_view(prev));
        Some((restv, b3))
    }
}

/// Decodes a sealed blob back to the flat form; `None` on malformed bytes.
pub fn decode_helper(bytes: &[u8]) -> (r: Option<NFTRegistryStorageHelper>)
    ensures
        match r {
            Some(h) => dec_helper(bytes@) == Some((entries_view(h.registry@), h.block_number)),
            None => dec_helper(bytes@) is None,
        },
{
    let (block, b1) = match parse_u32(bytes) {
        Some(p) => p,
        None => {
            return None;
        },
    };
    let (n, b2) = match parse_u32(b1) {
        Some(p) => p,
        None => {
            return None;
        },
    };
    let (entries, b3) = match parse_entries(b2, n) {
        Some(p) => p,
        None => {
            return None;
        },
    };
    if b3.len() != 0 {
        return None;
    }
    Some(NFTRegistryStorageHelper { registry: entries, block_number: block })
}

// ----- the persistence helper -----

/// Helper that flattens the registry to an ordered pair list plus the
/// watermark so the whole registry persists as one sealed unit.
#[derive(Debug)]
pub struct NFTRegistryStorageHelper {
    pub registry: Vec<(NFTId, NFTData)>,
    pub block_number: BlockNumber,
}

impl NFTRegistryStorageHelper {
    /// Flattens a registry: the pair sequence in order, plus the watermark.
    pub fn create_from_registry(hashmap_registry: &NFTRegistry) -> (r: Self)
        ensures
            entries_view(r.registry@) == entries_view(hashmap_registry.registry@),
            r.block_number == hashmap_registry.block_number,
    {
        let n: usize = hashmap_registry.registry.len();
        let mut vec_registry: Vec<(NFTId, NFTData)> = Vec::new();
        let mut i: usize = 0;
        while i < n
            invariant
                n == hashmap_registry.registry@.len(),
                i <= n,
                entries_view(vec_registry@) =~= entries_view(hashmap_registry.registry@).take(
                    i as int,
                ),
            decreases n - i,
        {
            let ghost src = entries_view(hashmap_registry.registry@);
            let ghost prev = vec_registry@;
            let id = hashmap_registry.registry[i].0;
            let data = clone_nft_data(&hashmap_registry.registry[i].1);
            vec_registry.push((id, data));
            proof {
                assert(entries_view(prev).len() == prev.len());
                assert(prev.len() == i);
                assert forall|k: int| 0 <= k < i + 1 implies entries_view(vec_registry@)[k]
                    == src.take(i + 1)[k] by {
                    if k < i {
                        assert(vec_registry@[k] == prev[k]);
                        assert(entries_view(prev)[k] == src.take(i as int)[k]);
                    } else {
                        assert(vec_registry@[k].0 == hashmap_registry.registry@[i as int].0);
                        assert(vec_registry@[k].1@ == hashmap_registry.registry@[i as int].1@);
                    }
                }
                assert(entries_view(vec_registry@) =~= src.take(i + 1));
            }
            i = i + 1;
        }
        assert(entries_view(hashmap_registry.registry@).take(n as int) =~= entries_view(
            hashmap_registry.registry@,
        ));
        NFTRegistryStorageHelper {
            registry: vec_registry,
            block_number: hashmap_registry.block_number,
        }
    }

    /// Reconstructs the registry from the flat form; the id index is rebuilt
    /// from the pair sequence's order.
    pub fn recover_registry(&self) -> (r: NFTRegistry)
        ensures
            entries_view(r.registry@) == entries_view(self.registry@),
            r.block_number == self.block_number,
            r.nft_ids@.len() == self.registry@.len(),
            forall|k: int| 0 <= k < self.registry@.len() ==> r.nft_ids@[k] == #[trigger] self
                .registry@[k].0,
    {
        let n: usize = self.registry.len();
        let mut recovered: Vec<(NFTId, NFTData)> = Vec::new();
        let mut ids: Vec<NFTId> = Vec::new();
        let mut i: usize = 0;
        while i < n
            invariant
                n == self.registry@.len(),
                i <= n,
                entries_view(recovered@) =~= entries_view(self.registry@).take(i as int),
                ids@.len() == i,
                forall|k: int| 0 <= k < i ==> ids@[k] == #[trigger] self.registry@[k].0,
            decreases n - i,
        {
            let ghost src = entries_view(self.registry@);
            let ghost prev = recovered@;
            let id = self.registry[i].0;
            let data = clone_nft_data(&self.registry[i].1);
            recovered.push((id, data));
            ids.push(id);
            proof {
                assert(entries_view(prev).len() == prev.len());
                assert(prev.len() == i);
                assert forall|k: int| 0 <= k < i + 1 implies entries_view(recovered@)[k]
                    == src.take(i + 1)[k] by {
                    if k < i {
                        assert(recovered@[k] == prev[k]);
                        assert(entries_view(prev)[k] == src.take(i as int)[k]);
                    } else {
                        assert(recovered@[k].0 == self.registry@[i as int].0);
                        assert(recovered@[k].1@ == self.registry@[i as int].1@);
                    }
                }
                assert(entries_view(recovered@) =~= src.take(i + 1));
            }
            i = i + 1;
        }
        assert(entries_view(self.registry@).take(n as int) =~= entries_view(self.registry@));
        NFTRegistry { block_number: self.block_number, registry: recovered, nft_ids: ids }
    }

    /// Seals the registry at `path` as one unit, the prior blob backed up
    /// first.
    pub fn seal(store: &mut SealedStore, path: &[u8], hashmap_registry: &NFTRegistry) -> (r:
        Result<(), RegistryError>)
        requires
            wf_entries(entries_view(hashmap_registry.registry@)),
        ensures
            final(store)@ == seal_spec(
                old(store)@,
                path@,
                enc_helper(
                    entries_view(hashmap_registry.registry@),
                    hashmap_registry.block_number,
                ),
            ),
            r is Ok,
    {
        let helper = NFTRegistryStorageHelper::create_from_registry(hashmap_registry);
        let encoded = encode_helper(&helper);
        match store.seal(path, encoded) {
            Ok(()) => Ok(()),
            Err(e) => Err(RegistryError::SealError(e)),
        }
    }

    /// Loads the registry sealed at `path`.  A missing blob is an unseal
    /// error; malformed bytes are a decode error, distinct from it.
    pub fn unseal(store: &SealedStore, path: &[u8]) -> (r: Result<NFTRegistry, RegistryError>)
        ensures
            !store@.dom().contains(path@) ==> r == Err::<NFTRegistry, RegistryError>(
                RegistryError::UnsealError(StoreError::NotFound),
            ),
            store@.dom().contains(path@) ==> match r {
                Ok(reg) => dec_helper(store@[path@]) == Some(
                    (entries_view(reg.registry@), reg.block_number),
                ),
                Err(e) => dec_helper(store@[path@]) is None && e == RegistryError::DecodeError,
            },
    {
        let encoded = match store.unseal(path) {
            Ok(b) => b,
            Err(e) => {
                return Err(RegistryError::UnsealError(e));
            },
        };
        let registry_codec = match decode_helper(encoded.as_slice()) {
            Some(h) => h,
            None => {
                return Err(RegistryError::DecodeError);
            },
        };
        Ok(registry_codec.recover_registry())
    }
}

/// Failures of registry persistence.
#[derive(Debug, Clone, Copy, PartialEq, Eq)]
pub enum RegistryError {
    /// Sealing the flat form failed.
    SealError(StoreError),
    /// Reading the sealed blob back failed.
    UnsealError(StoreError),
    /// The sealed blob did not decode to a registry.
    DecodeError,
}

/// Round-trip through the store: after sealing a registry's flat form at a
/// path, the blob at that path decodes to exactly the sealed entries and
/// watermark, so `unseal` reconstructs an equal registry.
pub proof fn lemma_seal_unseal_roundtrip(
    m: Map<Seq<u8>, Seq<u8>>,
    path: Seq<u8>,
    s: Seq<(NFTId, NFTDataView)>,
    block_number: u32,
)
    requires
        wf_entries(s),
    ensures
        seal_spec(m, path, enc_helper(s, block_number)).dom().contains(path),
        dec_helper(seal_spec(m, path, enc_helper(s, block_number))[path]) == Some(
            (s, block_number),
        ),
{
    lemma_registry_roundtrip(s, block_number);
    assert(backup_path_spec(path).len() == path.len() + 2);
}

} // verus!
