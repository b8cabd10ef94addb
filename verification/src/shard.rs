//! The sealed file layout of a shard: each shard's state lives under a
//! directory named by the base58 form of its identifier.

use vstd::prelude::*;
use base58::ToBase58;
use crate::types::ShardIdentifier;

verus! {

/// What the base58 encoding (Bitcoin alphabet) of a byte string is.  The
/// encoding is a function of the bytes alone.
pub uninterp spec fn base58_of(b: Seq<u8>) -> Seq<u8>;

/// Relies on `base58::ToBase58` for byte slices: the encoding depends on
/// the bytes alone, and an empty input encodes to the empty string.  The
/// implementation is written for inputs of at most 128 bytes.
#[verifier::external_body]
fn to_base58(b: &[u8]) -> (r: Vec<u8>)
    requires
        b@.len() <= 128,
    ensures
        r@ == base58_of(b@),
        b@.len() == 0 ==> r@.len() == 0,
{
    b.to_base58().into_bytes()
}

/// The directory all shards live under (`shards`).
pub open spec fn shards_path_spec() -> Seq<u8> {
    seq![0x73u8, 0x68, 0x61, 0x72, 0x64, 0x73]
}

/// The file name of a shard's sealed state blob (`encrypted_state.bin`).
pub open spec fn encrypted_state_file_spec() -> Seq<u8> {
    seq![0x65u8, 0x6e, 0x63, 0x72, 0x79, 0x70, 0x74, 0x65, 0x64, 0x5f, 0x73, 0x74, 0x61, 0x74,
        0x65, 0x2e, 0x62, 0x69, 0x6e]
}

/// A shard's directory: `shards/{base58 of the shard id}`.
pub open spec fn shard_dir_spec(shard: Seq<u8>) -> Seq<u8> {
    shards_path_spec() + seq![0x2fu8] + base58_of(shard)
}

fn push_all(out: &mut Vec<u8>, b: &[u8])
    ensures
        final(out)@ == old(out)@ + b@,
{
    let ghost prefix = out@;
    let n: usize = b.len();
    let mut i: usize = 0;
    while i < n
        invariant
            n == b@.len(),
            i <= n,
            out@ =~= prefix + b@.take(i as int),
        decreases n - i,
    {
        out.push(b[i]);
        i = i + 1;
    }
    assert(out@ =~= prefix + b@);
}

/// Builds the directory path a shard's sealed files live under.
pub fn shard_dir_path(shard: &ShardIdentifier) -> (r: Vec<u8>)
    ensures
        r@ == shard_dir_spec(shard@),
{
    let mut p: Vec<u8> = Vec::new();
    p.push(0x73);
    p.push(0x68);
    p.push(0x61);
    p.push(0x72);
    p.push(0x64);
    p.push(0x73);
    p.push(0x2f);
    assert(p@ =~= shards_path_spec() + seq![0x2fu8]);
    let encoded = to_base58(shard.as_slice());
    push_all(&mut p, encoded.as_slice());
    assert(p@ =~= shard_dir_spec(shard@));
    p
}

/// Builds the path of a shard's sealed state blob:
/// `shards/{base58 of the shard id}/encrypted_state.bin`.
pub fn shard_state_file_path(shard: &ShardIdentifier) -> (r: Vec<u8>)
    ensures
        r@ == shard_dir_spec(shard@) + seq![0x2fu8] + encrypted_state_file_spec(),
{
    let mut p = shard_dir_path(shard);
    p.push(0x2f);
    let suffix: Vec<u8> = vec![0x65u8, 0x6e, 0x63, 0x72, 0x79, 0x70, 0x74, 0x65, 0x64, 0x5f,
        0x73, 0x74, 0x61, 0x74, 0x65, 0x2e, 0x62, 0x69, 0x6e];
    assert(suffix@ =~= encrypted_state_file_spec());
    push_all(&mut p, suffix.as_slice());
    assert(p@ =~= shard_dir_spec(shard@) + seq![0x2fu8] + encrypted_state_file_spec());
    p
}

} // verus!
