//! The gateway the RPC layer calls into for keyvault operations.  The
//! concrete wiring of the gateway to a vault instance is still open
//! upstream; the placeholder implementation answers without touching any
//! store.

use vstd::prelude::*;
use crate::types::{AccountId, NFTId};

verus! {

/// Gateway from the RPC API to the keyvault operations.
pub trait RpcGateway {
    /// Fetches the share of an NFT for its owner.
    fn keyvault_get(&self, owner: AccountId, nft_id: NFTId) -> Option<sharks::Share>;

    /// Whether the keyvault holds a share for the NFT.
    fn keyvault_check(&self, owner: AccountId, nft_id: NFTId) -> bool;

    /// Stores the share of an NFT.
    fn keyvault_provision(&self, owner: AccountId, nft_id: NFTId, share: sharks::Share) -> Result<
        (),
        String,
    >;
}

/// Placeholder gateway: holds no store yet, so it hands out nothing,
/// reports presence, and accepts every provision.
pub struct TernoaRpcGateway {}

impl RpcGateway for TernoaRpcGateway {
    fn keyvault_get(&self, _owner: AccountId, _nft_id: NFTId) -> Option<sharks::Share> {
        None
    }

    fn keyvault_check(&self, _owner: AccountId, _nft_id: NFTId) -> bool {
        true
    }

    fn keyvault_provision(
        &self,
        _owner: AccountId,
        _nft_id: NFTId,
        _share: sharks::Share,
    ) -> Result<(), String> {
        Ok(())
    }
}

} // verus!
