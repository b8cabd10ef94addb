use tee_worker::registry::{NFTData, NFTDetails, NFTRegistry, NFTRegistryStorageHelper, RegistryError};
use tee_worker::sealed_store::{SealedStore, StoreError};
use tee_worker::types::{AccountId32, NFTId};

fn dummy_account() -> AccountId32 {
    AccountId32::from([
        212, 53, 147, 199, 21, 253, 211, 28, 97, 20, 26, 189, 4, 169, 159, 214, 130, 44, 133,
        88, 133, 76, 205, 227, 154, 86, 132, 231, 165, 109, 163, 127,
    ])
}

#[test]
fn test_recover_registry() {
    let details = NFTDetails::new(vec![10, 3, 0, 1, 2], 9, false);
    let details_two = NFTDetails::new(vec![10, 10], 100, true);
    let owner = dummy_account();
    let nft_data_one = NFTData::new(owner, details, false, true);
    let nft_data_two = NFTData::new(owner, details_two, false, false);
    let mut vec_map: Vec<(NFTId, NFTData)> = Vec::new();
    let pair_one = (3, nft_data_one);
    let pair_two = (10, nft_data_two);
    vec_map.push(pair_one.clone());
    vec_map.push(pair_two.clone());
    let helper = NFTRegistryStorageHelper { registry: vec_map, block_number: 13 };

    let registry = NFTRegistryStorageHelper::recover_registry(&helper);

    assert_eq!(pair_one.1, *registry.get(pair_one.0).unwrap());
    assert_eq!(pair_two.1, *registry.get(pair_two.0).unwrap());
    assert_eq!(registry.block_number, helper.block_number);
    assert_eq!(registry.nft_ids.len(), 2);
}

#[test]
fn test_create_from_registry() {
    let details = NFTDetails::new(vec![10, 3, 0, 1, 2], 9, false);
    let details_two = NFTDetails::new(vec![10, 10], 100, true);
    let owner = dummy_account();
    let nft_data_one = NFTData::new(owner, details, false, true);
    let nft_data_two = NFTData::new(owner, details_two, false, false);
    let pairs: Vec<(NFTId, NFTData)> = vec![(1, nft_data_one), (2, nft_data_two)];
    let registry = NFTRegistry::new(100, pairs.clone(), vec![10, 2, 10, 4]);

    let helper = NFTRegistryStorageHelper::create_from_registry(&registry);

    let retrieved_key_one = helper.registry[0].0;
    let retrieved_key_two = helper.registry[1].0;

    assert_eq!(helper.registry[0].1, *registry.get(retrieved_key_one).unwrap());
    assert_eq!(helper.registry[1].1, *registry.get(retrieved_key_two).unwrap());
    assert_eq!(registry.block_number, helper.block_number);
}

#[test]
fn test_recover_from_create_from_registry() {
    let details = NFTDetails::new(vec![10, 3, 0, 1, 2], 9, false);
    let details_two = NFTDetails::new(vec![10, 10], 100, true);
    let owner = dummy_account();
    let nft_data_one = NFTData::new(owner, details, false, true);
    let nft_data_two = NFTData::new(owner, details_two, false, false);
    let pairs: Vec<(NFTId, NFTData)> = vec![(1, nft_data_one), (2, nft_data_two)];
    let registry = NFTRegistry::new(100, pairs, vec![10, 2, 10, 4]);
    let helper = NFTRegistryStorageHelper::create_from_registry(&registry);

    let recovered_registry = NFTRegistryStorageHelper::recover_registry(&helper);

    assert_eq!(registry, recovered_registry);
}

#[test]
fn test_seal_creates_file() {
    let mut store = SealedStore::new();
    let path = b"hello_sealed_file";
    NFTRegistryStorageHelper::seal(&mut store, path, &NFTRegistry::default()).unwrap();
    assert!(store.contains(path));
}

#[test]
fn test_seal_creates_backup_file() {
    let mut store = SealedStore::new();
    let path = b"hello_sealed_backup_file";
    let backup_path = b"hello_sealed_backup_file.1";
    NFTRegistryStorageHelper::seal(&mut store, path, &NFTRegistry::default()).unwrap();
    NFTRegistryStorageHelper::seal(&mut store, path, &NFTRegistry::default()).unwrap();

    let file = store.unseal(path).unwrap();
    let backup = store.unseal(backup_path).unwrap();
    assert_eq!(file, backup);
}

#[test]
fn test_unseal_works() {
    let mut store = SealedStore::new();
    let path = b"hello_unseal";
    let registry = NFTRegistry::new(3, Vec::new(), vec![10, 20]);
    NFTRegistryStorageHelper::seal(&mut store, path, &registry).unwrap();

    let unsealed = NFTRegistryStorageHelper::unseal(&store, path).unwrap();

    assert_eq!(unsealed, registry);
}

#[test]
fn registry_roundtrip_with_records() {
    // A non-empty registry survives seal then unseal unchanged, whatever
    // the ids and records are.
    let owner = dummy_account();
    let pairs: Vec<(NFTId, NFTData)> = vec![
        (7, NFTData::new(owner, NFTDetails::new(vec![1, 2, 3], 4, true), true, false)),
        (1, NFTData::new(owner, NFTDetails::new(Vec::new(), 0, false), false, false)),
        (42, NFTData::new(owner, NFTDetails::new(vec![255; 40], 9, false), false, true)),
    ];
    let registry = NFTRegistry::new(1234, pairs, vec![7, 1, 42]);
    let mut store = SealedStore::new();
    NFTRegistryStorageHelper::seal(&mut store, b"roundtrip", &registry).unwrap();
    let unsealed = NFTRegistryStorageHelper::unseal(&store, b"roundtrip").unwrap();
    assert_eq!(unsealed, registry);
    assert_eq!(unsealed.block_number, 1234);
    assert_eq!(unsealed.nft_ids, vec![7, 1, 42]);
}

#[test]
fn unseal_of_absent_path_is_unseal_error() {
    let store = SealedStore::new();
    let r = NFTRegistryStorageHelper::unseal(&store, b"nothing_here");
    assert_eq!(r.unwrap_err(), RegistryError::UnsealError(StoreError::NotFound));
}

#[test]
fn unseal_of_malformed_blob_is_decode_error() {
    let mut store = SealedStore::new();
    store.seal(b"garbled", vec![1, 2, 3]).unwrap();
    let r = NFTRegistryStorageHelper::unseal(&store, b"garbled");
    assert_eq!(r.unwrap_err(), RegistryError::DecodeError);
}
