//! The factory that hands the o-call bridge its collaborators.  The bridge
//! itself should not know any concrete type; the factory is constructed
//! once with the node-API factory and the enclave API and injected.

use vstd::prelude::*;
use std::sync::Arc;

verus! {

/// Holds the two capabilities every bridge component is built from.
pub struct OCallBridgeComponentFactory<NodeApi, EnclaveApi> {
    pub node_api_factory: Arc<NodeApi>,
    pub enclave_api: Arc<EnclaveApi>,
}

impl<NodeApi, EnclaveApi> OCallBridgeComponentFactory<NodeApi, EnclaveApi> {
    /// Builds the factory from its two collaborators.
    pub fn new(node_api_factory: Arc<NodeApi>, enclave_api: Arc<EnclaveApi>) -> (r: Self)
        ensures
            r.node_api_factory == node_api_factory,
            r.enclave_api == enclave_api,
    {
        OCallBridgeComponentFactory { node_api_factory, enclave_api }
    }
}

} // verus!
