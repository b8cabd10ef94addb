use tee_worker::stf::{
    account_key_hash, apply_state_payload, encode_account_info, get_account_info,
    increment_nonce, shards_key_hash, storage_hashes_to_update_per_shard, validate_nonce,
    AccountData, AccountInfo, State, StatePayload, StfError,
};
use tee_worker::types::AccountId32;

fn account_a() -> AccountId32 {
    AccountId32::from([7u8; 32])
}

fn state_with_account(who: &AccountId32, nonce: u32, free: u128) -> State {
    let mut state = State::new();
    let key = account_key_hash(who);
    let info = AccountInfo { nonce, data: AccountData { free } };
    state.set(key, encode_account_info(&info));
    state
}

#[test]
fn absent_account_reads_as_none_with_nonce_zero() {
    let state = State::new();
    let who = account_a();
    assert!(get_account_info(&state, &who).is_none());
    assert!(validate_nonce(&state, &who, 0).is_ok());
    assert_eq!(validate_nonce(&state, &who, 1).unwrap_err(), StfError::InvalidNonce(1));
}

#[test]
fn stored_account_record_reads_back() {
    let who = account_a();
    let state = state_with_account(&who, 5, 1000);
    let info = get_account_info(&state, &who).unwrap();
    assert_eq!(info.nonce, 5);
    assert_eq!(info.data.free, 1000);
}

#[test]
fn nonce_sequence_over_increments() {
    // The account exists with nonce 0; validation accepts exactly the
    // current nonce, and one increment moves it forward by exactly one.
    let who = account_a();
    let mut state = state_with_account(&who, 0, 42);

    assert!(validate_nonce(&state, &who, 0).is_ok());
    increment_nonce(&mut state, &who);
    assert_eq!(validate_nonce(&state, &who, 0).unwrap_err(), StfError::InvalidNonce(0));
    assert!(validate_nonce(&state, &who, 1).is_ok());

    increment_nonce(&mut state, &who);
    assert!(validate_nonce(&state, &who, 2).is_ok());
    assert_eq!(get_account_info(&state, &who).unwrap().nonce, 2);
}

#[test]
fn increment_on_missing_account_changes_nothing() {
    let who = account_a();
    let mut state = State::new();
    increment_nonce(&mut state, &who);
    assert!(get_account_info(&state, &who).is_none());
    assert!(validate_nonce(&state, &who, 0).is_ok());
}

#[test]
fn apply_with_matching_hashes_moves_the_state() {
    let who = account_a();
    let mut state = state_with_account(&who, 0, 42);
    let apriori = state.state_hash();

    // The expected post-state: the same construction, with the diff's
    // effect replayed on it.
    let mut expected = state_with_account(&who, 0, 42);
    expected.set(b"extra_key".to_vec(), b"extra_value".to_vec());
    let aposteriori = expected.state_hash();

    let diff = vec![(b"extra_key".to_vec(), Some(b"extra_value".to_vec()))];
    let payload = StatePayload::new(apriori, aposteriori, diff);

    assert!(apply_state_payload(&mut state, &payload).is_ok());
    assert_eq!(state.state_hash(), aposteriori);
    assert_eq!(state.get(b"extra_key").unwrap(), &b"extra_value".to_vec());
}

#[test]
fn apply_with_wrong_apriori_is_rejected_and_leaves_state() {
    // The integrity gate: a payload whose before-hash does not match the
    // state at hand must change nothing.
    let who = account_a();
    let mut state = state_with_account(&who, 0, 42);
    let before = state.state_hash();

    let mut wrong_apriori = before;
    wrong_apriori[0] ^= 0xff;
    let payload = StatePayload::new(
        wrong_apriori,
        before,
        vec![(b"extra_key".to_vec(), Some(b"extra_value".to_vec()))],
    );

    let r = apply_state_payload(&mut state, &payload);
    assert_eq!(r.unwrap_err(), StfError::StorageHashMismatch);
    assert_eq!(state.state_hash(), before);
    assert!(state.get(b"extra_key").is_none());
}

#[test]
fn apply_with_wrong_aposteriori_rolls_back() {
    let who = account_a();
    let mut state = state_with_account(&who, 0, 42);
    let before = state.state_hash();

    let mut wrong_aposteriori = before;
    wrong_aposteriori[5] ^= 0x01;
    let payload = StatePayload::new(
        before,
        wrong_aposteriori,
        vec![(b"extra_key".to_vec(), Some(b"extra_value".to_vec()))],
    );

    let r = apply_state_payload(&mut state, &payload);
    assert_eq!(r.unwrap_err(), StfError::InvalidStorageDiff);
    assert_eq!(state.state_hash(), before);
    assert!(state.get(b"extra_key").is_none());
}

#[test]
fn apply_removal_diff() {
    let mut state = State::new();
    state.set(b"a".to_vec(), b"1".to_vec());
    state.set(b"b".to_vec(), b"2".to_vec());
    let apriori = state.state_hash();

    let mut expected = State::new();
    expected.set(b"a".to_vec(), b"1".to_vec());
    expected.set(b"b".to_vec(), b"2".to_vec());
    expected.remove(b"a");
    let aposteriori = expected.state_hash();

    let payload = StatePayload::new(apriori, aposteriori, vec![(b"a".to_vec(), None)]);
    assert!(apply_state_payload(&mut state, &payload).is_ok());
    assert!(state.get(b"a").is_none());
    assert_eq!(state.get(b"b").unwrap(), &b"2".to_vec());
}

#[test]
fn payload_getters_return_what_was_built() {
    let payload = StatePayload::new([1u8; 32], [2u8; 32], vec![(b"k".to_vec(), None)]);
    assert_eq!(payload.state_hash_apriori(), [1u8; 32]);
    assert_eq!(payload.state_hash_aposteriori(), [2u8; 32]);
    assert_eq!(payload.state_update().len(), 1);
}

#[test]
fn shard_subscription_hooks_are_empty() {
    assert!(storage_hashes_to_update_per_shard(&[0u8; 32]).is_empty());
    assert!(shards_key_hash().is_empty());
}

#[test]
fn account_key_is_tag_plus_account_bytes() {
    let who = account_a();
    let key = account_key_hash(&who);
    assert_eq!(key.len(), 40);
    assert_eq!(&key[..8], b"sys:acct");
    assert_eq!(&key[8..], &[7u8; 32]);
}
