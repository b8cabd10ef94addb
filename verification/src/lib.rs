//! Enclave-resident trust-and-state layer of a TEE side-chain worker:
//! sealed, authorization-gated secret custody, hash-chained state-transition
//! integrity with nonce-based replay protection, and the attestation-gated
//! bootstrap and parentchain-synchronization protocol.
//!
//! Chain queries, enclave calls and file I/O are collaborators at the edge;
//! this crate holds the decisions and the bookkeeping, verified.

pub mod bootstrap;
pub mod bytemap;
pub mod component_factory;
pub mod events;
pub mod keyvault;
pub mod registry;
pub mod rpc_gateway;
pub mod sealed_store;
pub mod shard;
pub mod stf;
pub mod sync;
pub mod types;
