use vstd::prelude::*;

verus! {

/// Identifier of an NFT-like resource; lookup key for the vault and the registry.
pub type NFTId = u32;

/// Parentchain block number.
pub type BlockNumber = u32;

/// Per-account call counter (nonce).
pub type Index = u32;

/// On-chain balance amount.
pub type Balance = u128;

/// 256-bit hash value.
pub type H256 = [u8; 32];

/// Opaque 256-bit partition identifier of an independent state instance.
pub type ShardIdentifier = H256;

/// Public identity of a chain account: a 32-byte public key.
#[derive(Debug, Clone, Copy, PartialEq, Eq)]
pub struct AccountId32 {
    pub bytes: [u8; 32],
}

/// Alias used by the state-transition layer.
pub type AccountId = AccountId32;

impl From<[u8; 32]> for AccountId32 {
    fn from(bytes: [u8; 32]) -> (r: AccountId32) {
        AccountId32 { bytes }
    }
}

impl vstd::std_specs::convert::FromSpecImpl<[u8; 32]> for AccountId32 {
    open spec fn obeys_from_spec() -> bool {
        true
    }

    open spec fn from_spec(bytes: [u8; 32]) -> Self {
        AccountId32 { bytes }
    }
}

/// Byte-wise equality of two byte slices.
pub fn bytes_eq(a: &[u8], b: &[u8]) -> (r: bool)
    ensures
        r == (a@ == b@),
{
    if a.len() != b.len() {
        assert(a@ != b@);
        return false;
    }
    let n: usize = a.len();
    let mut i: usize = 0;
    while i < n
        invariant
            n == a@.len() == b@.len(),
            i <= n,
            forall|j: int| 0 <= j < i ==> a@[j] == b@[j],
        decreases n - i,
    {
        if a[i] != b[i] {
            assert(a@ != b@);
            return false;
        }
        i = i + 1;
    }
    assert(a@ =~= b@);
    true
}

/// Byte-wise equality of two 256-bit hashes.
pub fn h256_eq(a: &H256, b: &H256) -> (r: bool)
    ensures
        r == (a@ == b@),
{
    let mut i: usize = 0;
    while i < 32
        invariant
            i <= 32,
            forall|j: int| 0 <= j < i ==> a@[j] == b@[j],
        decreases 32 - i,
    {
        if a[i] != b[i] {
            assert(a@ != b@);
            return false;
        }
        i = i + 1;
    }
    assert(a@ =~= b@);
    true
}

} // verus!
