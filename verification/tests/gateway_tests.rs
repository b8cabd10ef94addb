use std::convert::TryFrom;
use std::sync::Arc;

use sharks::Share;
use tee_worker::component_factory::OCallBridgeComponentFactory;
use tee_worker::rpc_gateway::{RpcGateway, TernoaRpcGateway};
use tee_worker::types::AccountId32;

#[test]
fn placeholder_gateway_answers_without_a_store() {
    let gateway = TernoaRpcGateway {};
    let owner = AccountId32::from([1u8; 32]);
    assert!(gateway.keyvault_get(owner, 7).is_none());
    assert!(gateway.keyvault_check(owner, 7));
    let share = Share::try_from(&[1u8, 2, 3][..]).unwrap();
    assert!(gateway.keyvault_provision(owner, 7, share).is_ok());
}

#[test]
fn component_factory_holds_its_collaborators() {
    let node_api_factory = Arc::new(41u32);
    let enclave_api = Arc::new("enclave".to_string());
    let factory = OCallBridgeComponentFactory::new(node_api_factory.clone(), enclave_api.clone());
    assert_eq!(*factory.node_api_factory, 41);
    assert_eq!(*factory.enclave_api, "enclave");
}
