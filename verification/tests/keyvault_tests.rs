use std::convert::TryFrom;

use sharks::Share;
use tee_worker::keyvault::{ClosedNftAccess, KeyvaultStorage};
use tee_worker::types::AccountId32;

const ALICE_ENCODED: [u8; 32] = [
    212, 53, 147, 199, 21, 253, 211, 28, 97, 20, 26, 189, 4, 169, 159, 214, 130, 44, 133, 88,
    133, 76, 205, 227, 154, 86, 132, 231, 165, 109, 162, 125,
];

#[test]
fn create_keyvault_storage_works() {
    let storage = KeyvaultStorage::new();
    assert_eq!(storage.path, b"keyshare".to_vec());
}

#[test]
fn set_filename_and_path_works() {
    let dir = b"test_set_path".to_vec();
    let storage = KeyvaultStorage::new().set_path(dir.clone());
    assert_eq!(storage.path, dir);
}

#[test]
fn test_sealed_file_name_contains_nftid() {
    let dir = b"test_sealed_file_name".to_vec();
    let storage = KeyvaultStorage::new().set_path(dir);
    let file = storage.nft_sealed_file_path(197);
    let name = String::from_utf8(file).unwrap();
    assert!(name.contains("197"));
}

#[test]
fn test_seal_create_file() {
    let dir = b"test_seal_create_file".to_vec();
    let share_bytes = Vec::from("hello");
    let nft_id = 365;
    let mut storage = KeyvaultStorage::new().set_path(dir);
    storage.seal(nft_id, share_bytes).unwrap();
    assert!(storage.store.contains(b"test_seal_create_file/365_Nft.bin"));
}

#[test]
fn test_share_saved_in_sealed_file() {
    let dir = b"test_share_saved".to_vec();
    let share_bytes = Vec::from("hello");
    let nft_id = 365;
    let mut storage = KeyvaultStorage::new().set_path(dir);
    storage.seal(nft_id, share_bytes.clone()).unwrap();

    let read_share_bytes = storage.unseal(nft_id).unwrap();
    for i in 1..5 {
        assert_eq!(share_bytes[i], read_share_bytes[i]);
    }
}

#[test]
fn test_seal_override_existing_sealed_file() {
    let dir = b"test_override_file".to_vec();
    let mut storage = KeyvaultStorage::new().set_path(dir);

    let nft_id = 5870;
    storage.seal(nft_id, Vec::from("hello")).unwrap();

    let new_share_bytes = Vec::from("hello_world");
    storage.seal(nft_id, new_share_bytes.clone()).unwrap();

    let read_share_bytes = storage.unseal(nft_id).unwrap();
    for i in 1..11 {
        assert_eq!(new_share_bytes[i], read_share_bytes[i]);
    }
}

#[test]
fn test_seal_keeps_backup_of_overridden_share() {
    let dir = b"test_override_backup".to_vec();
    let mut storage = KeyvaultStorage::new().set_path(dir);

    let nft_id = 12;
    storage.seal(nft_id, Vec::from("first_payload")).unwrap();
    storage.seal(nft_id, Vec::from("second_payload")).unwrap();

    let primary = storage.store.unseal(b"test_override_backup/12_Nft.bin").unwrap();
    let backup = storage.store.unseal(b"test_override_backup/12_Nft.bin.1").unwrap();
    assert_eq!(primary, Vec::from("second_payload"));
    assert_eq!(backup, Vec::from("first_payload"));
}

#[test]
fn test_unseal_fails_when_no_file_exists() {
    let dir = b"unseal_fails_no_file".to_vec();
    let storage = KeyvaultStorage::new().set_path(dir);
    assert!(!storage.store.contains(b"unseal_fails_no_file/365_Nft.bin"));
    assert!(storage.unseal(365).is_err());
}

#[test]
fn test_provision_fails_when_no_nft_owner() {
    let mut storage = KeyvaultStorage::with_policy(ClosedNftAccess);
    let author = AccountId32::from(ALICE_ENCODED);
    let share = Share::try_from(&b"hello"[..]).unwrap();
    assert!(storage.provision(author, 42, share).is_err());
}

#[test]
fn test_check_is_false_when_no_nft_owner() {
    let mut storage = KeyvaultStorage::with_policy(ClosedNftAccess);
    let author = AccountId32::from(ALICE_ENCODED);
    // The share physically exists; the policy still denies.
    storage.seal(42, Vec::from("hello")).unwrap();
    assert!(!storage.check(author, 42));
}

#[test]
fn test_get_fails_when_no_nft_owner() {
    let mut storage = KeyvaultStorage::with_policy(ClosedNftAccess);
    let author = AccountId32::from(ALICE_ENCODED);
    storage.seal(42, Vec::from("hello")).unwrap();
    assert!(storage.get(author, 42).is_none());
}

#[test]
fn test_provision_store_share_in_sealed_file() {
    let nft_id = 5880;
    let author = AccountId32::from(ALICE_ENCODED);
    let share_bytes = Vec::from("new_test_share_5875");
    let share = Share::try_from(share_bytes.as_slice()).unwrap();
    let mut storage = KeyvaultStorage::new();
    storage.provision(author, nft_id, share).unwrap();

    assert!(storage.store.contains(b"keyshare/5880_Nft.bin"));

    let read_share_bytes = storage.unseal(nft_id).unwrap();
    for i in 1..18 {
        assert_eq!(share_bytes[i], read_share_bytes[i]);
    }
}

#[test]
fn test_check_is_true_when_sealed_file() {
    let nft_id = 5890;
    let mut storage = KeyvaultStorage::new();
    let author = AccountId32::from(ALICE_ENCODED);

    storage.seal(nft_id, Vec::from("hello_world")).unwrap();

    assert!(storage.check(author, nft_id));
}

#[test]
fn test_check_is_false_when_no_sealed_file() {
    let nft_id = 6000;
    let author = AccountId32::from(ALICE_ENCODED);
    let storage = KeyvaultStorage::new();
    assert!(!storage.check(author, nft_id));
}

#[test]
fn test_get_none_when_nft_not_in_store() {
    let nft_id = 6010;
    let author = AccountId32::from(ALICE_ENCODED);
    let storage = KeyvaultStorage::new();
    assert!(storage.get(author, nft_id).is_none());
}

#[test]
fn test_get_the_valid_stored_share() {
    let nft_id = 6020;
    let owner = AccountId32::from(ALICE_ENCODED);
    let share_bytes = Vec::from("new_test_share_6020");
    let share = Share::try_from(share_bytes.as_slice()).unwrap();
    let mut storage = KeyvaultStorage::new();
    storage.provision(owner, nft_id, share).unwrap();

    let read_share = storage.get(owner, nft_id).unwrap();
    let read_share_bytes = Vec::from(&read_share);
    for i in 1..18 {
        assert_eq!(share_bytes[i], read_share_bytes[i]);
    }
}

#[test]
fn vault_lifecycle_for_one_share() {
    // No share for (owner, 42): check says no, get says nothing; after a
    // provision both answer, and the share comes back byte-identical.
    let owner = AccountId32::from(ALICE_ENCODED);
    let mut storage = KeyvaultStorage::new();
    assert!(!storage.check(owner, 42));
    assert!(storage.get(owner, 42).is_none());

    let share_bytes = vec![7u8, 1, 2, 3, 4, 5];
    let share = Share::try_from(share_bytes.as_slice()).unwrap();
    assert!(storage.provision(owner, 42, share).is_ok());

    assert!(storage.check(owner, 42));
    let read_share = storage.get(owner, 42).unwrap();
    assert_eq!(Vec::from(&read_share), share_bytes);
}
