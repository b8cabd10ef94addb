use tee_worker::shard::{shard_dir_path, shard_state_file_path};

#[test]
fn shard_dir_is_base58_of_the_identifier() {
    // 32 zero bytes encode to 32 ones in the base58 alphabet.
    let shard = [0u8; 32];
    let dir = shard_dir_path(&shard);
    assert_eq!(dir, b"shards/11111111111111111111111111111111".to_vec());
}

#[test]
fn distinct_shards_get_distinct_dirs() {
    let a = shard_dir_path(&[0u8; 32]);
    let b = shard_dir_path(&[1u8; 32]);
    assert_ne!(a, b);
}

#[test]
fn shard_state_file_lives_in_the_shard_dir() {
    let shard = [0u8; 32];
    let file = shard_state_file_path(&shard);
    let name = String::from_utf8(file).unwrap();
    assert!(name.starts_with("shards/11111111111111111111111111111111/"));
    assert!(name.ends_with("encrypted_state.bin"));
}
