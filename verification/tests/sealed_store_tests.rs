use tee_worker::sealed_store::{SealedStore, StoreError};

#[test]
fn unseal_reads_back_what_was_sealed() {
    let mut store = SealedStore::new();
    store.seal(b"some/path", b"payload".to_vec()).unwrap();
    assert_eq!(store.unseal(b"some/path").unwrap(), b"payload".to_vec());
}

#[test]
fn unseal_of_an_absent_path_is_not_found() {
    let store = SealedStore::new();
    assert_eq!(store.unseal(b"missing").unwrap_err(), StoreError::NotFound);
    assert!(!store.contains(b"missing"));
}

#[test]
fn backup_before_overwrite() {
    // After sealing A then B at one path, the primary holds B and the
    // backup holds A.
    let mut store = SealedStore::new();
    store.seal(b"blob", b"A-contents".to_vec()).unwrap();
    store.seal(b"blob", b"B-contents".to_vec()).unwrap();
    assert_eq!(store.unseal(b"blob").unwrap(), b"B-contents".to_vec());
    assert_eq!(store.unseal(b"blob.1").unwrap(), b"A-contents".to_vec());
}

#[test]
fn backup_keeps_only_one_generation() {
    let mut store = SealedStore::new();
    store.seal(b"blob", b"one".to_vec()).unwrap();
    store.seal(b"blob", b"two".to_vec()).unwrap();
    store.seal(b"blob", b"three".to_vec()).unwrap();
    assert_eq!(store.unseal(b"blob").unwrap(), b"three".to_vec());
    assert_eq!(store.unseal(b"blob.1").unwrap(), b"two".to_vec());
    assert_eq!(store.unseal(b"blob.1.1").unwrap_err(), StoreError::NotFound);
}

#[test]
fn first_seal_leaves_no_backup() {
    let mut store = SealedStore::new();
    store.seal(b"fresh", b"x".to_vec()).unwrap();
    assert!(!store.contains(b"fresh.1"));
}
