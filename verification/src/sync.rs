//! Parentchain header synchronization: a verified view of the finalized
//! chain advances strictly by consecutive block numbers over linked parent
//! hashes, never skipping a header.  Catch-up is resumable and idempotent;
//! fetching the headers is the chain-query collaborator's part.

use vstd::prelude::*;
use crate::types::{BlockNumber, H256, h256_eq};

verus! {

/// Failures of light-client initialization and catch-up.
#[derive(Debug, Clone, Copy, PartialEq, Eq)]
pub enum SyncError {
    /// The authority-set proof was not accepted; no header can be trusted.
    UntrustedAuthoritySet,
    /// The fetched chain data ends before the required block.
    SyncStalled,
}

/// A parentchain block header, as far as synchronization reads it.
#[derive(Debug, Clone, Copy, PartialEq, Eq)]
pub struct Header {
    pub number: BlockNumber,
    pub parent_hash: H256,
    pub hash: H256,
}

/// Whether `child` directly extends `parent`: consecutive number and a
/// parent hash that links back.
pub open spec fn is_child_of(child: Header, parent: Header) -> bool {
    child.number == parent.number + 1 && child.parent_hash@ == parent.hash@
}

/// The first position at or after `i` holding a child of `h`.
pub open spec fn child_index_from(chain: Seq<Header>, h: Header, i: int) -> Option<int>
    decreases chain.len() - i,
{
    if i < 0 || i >= chain.len() {
        None
    } else if is_child_of(chain[i], h) {
        Some(i)
    } else {
        child_index_from(chain, h, i + 1)
    }
}

/// The first position holding a child of `h`.
pub open spec fn child_index(chain: Seq<Header>, h: Header) -> Option<int> {
    child_index_from(chain, h, 0)
}

pub proof fn lemma_child_index_props(chain: Seq<Header>, h: Header, i: int)
    requires
        0 <= i <= chain.len(),
    ensures
        match child_index_from(chain, h, i) {
            Some(j) => i <= j < chain.len() && is_child_of(chain[j], h),
            None => forall|k: int| i <= k < chain.len() ==> !is_child_of(chain[k], h),
        },
    decreases chain.len() - i,
{
    if i < chain.len() && !is_child_of(chain[i], h) {
        lemma_child_index_props(chain, h, i + 1);
    }
}

/// The head reached from `h` by following children while any exists.
pub open spec fn sync_spec(chain: Seq<Header>, h: Header) -> Header
    decreases u32::MAX - h.number,
    via sync_spec_dec
{
    match child_index(chain, h) {
        Some(i) => sync_spec(chain, chain[i]),
        None => h,
    }
}

#[via_fn]
proof fn sync_spec_dec(chain: Seq<Header>, h: Header) {
    lemma_child_index_props(chain, h, 0);
}

/// The head that catch-up reaches has no child left in the chain data.
pub proof fn lemma_sync_fixpoint(chain: Seq<Header>, h: Header)
    ensures
        child_index(chain, sync_spec(chain, h)) is None,
    decreases u32::MAX - h.number,
{
    lemma_child_index_props(chain, h, 0);
    match child_index(chain, h) {
        Some(i) => {
            lemma_sync_fixpoint(chain, chain[i]);
        },
        None => {},
    }
}

/// Idempotence of catch-up: syncing from an already fully synced head
/// returns the same head.
pub proof fn lemma_sync_idempotent(chain: Seq<Header>, h: Header)
    ensures
        sync_spec(chain, sync_spec(chain, h)) == sync_spec(chain, h),
{
    lemma_sync_fixpoint(chain, h);
}

/// Catch-up only moves forward: it returns its start or a later header.
pub proof fn lemma_sync_advances(chain: Seq<Header>, h: Header)
    ensures
        sync_spec(chain, h) == h || sync_spec(chain, h).number > h.number,
    decreases u32::MAX - h.number,
{
    lemma_child_index_props(chain, h, 0);
    match child_index(chain, h) {
        Some(i) => {
            lemma_sync_advances(chain, chain[i]);
        },
        None => {},
    }
}

fn find_child(chain: &Vec<Header>, h: &Header) -> (r: Option<usize>)
    ensures
        match r {
            Some(i) => child_index(chain@, *h) == Some(i as int),
            None => child_index(chain@, *h) is None,
        },
{
    let n: usize = chain.len();
    let mut i: usize = 0;
    while i < n
        invariant
            n == chain@.len(),
            i <= n,
            child_index(chain@, *h) == child_index_from(chain@, *h, i as int),
        decreases n - i,
    {
        let candidate = &chain[i];
        if h.number < u32::MAX && candidate.number == h.number + 1 && h256_eq(
            &candidate.parent_hash,
            &h.hash,
        ) {
            assert(is_child_of(chain@[i as int], *h));
            return Some(i);
        }
        assert(!is_child_of(chain@[i as int], *h));
        i = i + 1;
    }
    None
}

/// Catch-up: advances from `last_synced` strictly by increasing block
/// number, following parent-hash links through the fetched chain data, and
/// returns the new head.  Calling it again with the returned head is a
/// correct way to continue.
pub fn sync(last_synced: &Header, chain: &Vec<Header>) -> (r: Header)
    ensures
        r == sync_spec(chain@, *last_synced),
{
    let mut current: Header = *last_synced;
    let mut next = find_child(chain, &current);
    while next.is_some()
        invariant
            sync_spec(chain@, current) == sync_spec(chain@, *last_synced),
            match next {
                Some(i) => child_index(chain@, current) == Some(i as int),
                None => child_index(chain@, current) is None,
            },
        decreases u32::MAX - current.number,
    {
        proof {
            lemma_child_index_props(chain@, current, 0);
        }
        let i = next.unwrap();
        current = chain[i];
        next = find_child(chain, &current);
    }
    current
}

/// Establishes the light client's trust anchor: the genesis header becomes
/// the head exactly when the enclave's verifier accepted the authority-set
/// proof.
pub fn init_light_client(genesis_header: &Header, authority_proof_accepted: bool) -> (r: Result<
    Header,
    SyncError,
>)
    ensures
        authority_proof_accepted ==> r == Ok::<Header, SyncError>(*genesis_header),
        !authority_proof_accepted ==> r == Err::<Header, SyncError>(
            SyncError::UntrustedAuthoritySet,
        ),
{
    if authority_proof_accepted {
        Ok(*genesis_header)
    } else {
        Err(SyncError::UntrustedAuthoritySet)
    }
}

spec fn blocks_remaining(target: u32, at: u32) -> int {
    if at < target {
        target - at
    } else {
        0
    }
}

/// For the first registrant: syncs until the head has reached the block
/// that registered this enclave, and fails when the fetched chain data
/// cannot reach it.
pub fn import_parentchain_blocks_until_self_registry(
    chain: &Vec<Header>,
    last_synced_header: &Header,
    register_enclave_xt_header: &Header,
) -> (r: Result<Header, SyncError>)
    ensures
        last_synced_header.number >= register_enclave_xt_header.number ==> r == Ok::<
            Header,
            SyncError,
        >(*last_synced_header),
        last_synced_header.number < register_enclave_xt_header.number && sync_spec(
            chain@,
            *last_synced_header,
        ).number >= register_enclave_xt_header.number ==> r == Ok::<Header, SyncError>(
            sync_spec(chain@, *last_synced_header),
        ),
        last_synced_header.number < register_enclave_xt_header.number && sync_spec(
            chain@,
            *last_synced_header,
        ).number < register_enclave_xt_header.number ==> r == Err::<Header, SyncError>(
            SyncError::SyncStalled,
        ),
{
    let mut last: Header = *last_synced_header;
    while last.number < register_enclave_xt_header.number
        invariant
            last == *last_synced_header || (last == sync_spec(chain@, *last_synced_header)
                && last_synced_header.number < register_enclave_xt_header.number),
        decreases blocks_remaining(register_enclave_xt_header.number, last.number),
    {
        let ghost prev = last;
        let next = sync(&last, chain);
        proof {
            lemma_sync_advances(chain@, last);
            lemma_sync_idempotent(chain@, *last_synced_header);
        }
        if next.number == last.number {
            assert(next == last);
            assert(sync_spec(chain@, *last_synced_header) == last);
            return Err(SyncError::SyncStalled);
        }
        assert(next.number > prev.number);
        last = next;
    }
    Ok(last)
}

} // verus!
