use zk_shielded::errors::ZkShieldedError;
use zk_shielded::nullifier::{NullifierBatch, NullifierSet};

#[test]
fn test_fresh_filter_reports_absent() {
    let set = NullifierSet::new([1u8; 32]);
    assert_eq!(set.count, 0);
    assert_eq!(set.num_hash_functions, 7);
    assert!(!set.might_contain(&[0xa1u8; 32]));
    assert!(!set.might_contain(&[0u8; 32]));
}

#[test]
fn test_added_nullifier_reported_present() {
    let mut set = NullifierSet::new([1u8; 32]);
    let n = [0xa1u8; 32];
    set.add(&n);
    assert!(set.might_contain(&n));
    assert_eq!(set.count, 1);
}

#[test]
fn test_added_nullifier_stays_present() {
    let mut set = NullifierSet::new([1u8; 32]);
    let n = [0xa1u8; 32];
    set.add(&n);
    for i in 0..50u8 {
        set.add(&[i; 32]);
        assert!(set.might_contain(&n));
    }
    assert_eq!(set.count, 51);
}

#[test]
fn test_batch_contains_and_add() {
    let mut batch = NullifierBatch {
        nullifier_set: [1u8; 32],
        batch_index: 0,
        nullifiers: Vec::new(),
    };
    let n = [0xa1u8; 32];
    assert!(!batch.contains(&n));
    batch.add(n).unwrap();
    assert!(batch.contains(&n));
    assert!(!batch.contains(&[0xa2u8; 32]));
}

#[test]
fn test_batch_full_rejects() {
    let mut batch = NullifierBatch {
        nullifier_set: [1u8; 32],
        batch_index: 0,
        nullifiers: Vec::new(),
    };
    for i in 0..300u32 {
        let mut n = [0u8; 32];
        n[0..4].copy_from_slice(&i.to_le_bytes());
        batch.add(n).unwrap();
    }
    assert_eq!(batch.add([0xffu8; 32]), Err(ZkShieldedError::MerkleTreeFull));
    assert_eq!(batch.nullifiers.len(), 300);
}
