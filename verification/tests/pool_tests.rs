use zk_shielded::encoding::le_to_be;
use zk_shielded::pool::{PoolStats, ShieldedPool};

fn sample_pool() -> ShieldedPool {
    ShieldedPool::new([2u8; 32], [0u8; 32], [9u8; 32], 4, [7u8; 32], 10, 100)
}

#[test]
fn test_new_pool_state() {
    let pool = sample_pool();
    assert!(pool.is_active);
    assert_eq!(pool.total_shielded, 0);
    assert_eq!(pool.next_leaf_index, 0);
    assert_eq!(pool.merkle_root, [7u8; 32]);
    assert_eq!(pool.historical_roots.len(), 0);
    assert_eq!(pool.relayer, [2u8; 32]);
    assert_eq!(pool.max_historical_roots, 100);
}

#[test]
fn test_is_valid_root() {
    let mut pool = sample_pool();
    assert!(pool.is_valid_root(&[7u8; 32]));
    assert!(!pool.is_valid_root(&[8u8; 32]));
    pool.next_leaf_index = 1;
    pool.update_root([8u8; 32]);
    assert!(pool.is_valid_root(&[8u8; 32]));
    assert!(pool.is_valid_root(&[7u8; 32]));
    assert_eq!(pool.historical_roots.len(), 1);
    assert_eq!(pool.historical_roots[0], [7u8; 32]);
}

#[test]
fn test_update_root_skips_creation_root() {
    let mut pool = sample_pool();
    // The first operation replaces the creation root without retaining it.
    pool.update_root([8u8; 32]);
    assert_eq!(pool.historical_roots.len(), 0);
    assert_eq!(pool.merkle_root, [8u8; 32]);
    assert!(!pool.is_valid_root(&[7u8; 32]));
}

#[test]
fn test_window_evicts_oldest() {
    let mut pool = sample_pool();
    pool.next_leaf_index = 1;
    for i in 0..102u32 {
        let mut root = [0u8; 32];
        root[0..4].copy_from_slice(&i.to_le_bytes());
        pool.update_root(root);
    }
    assert_eq!(pool.historical_roots.len(), 100);
    // Roots 1..=100 remain; root 0 was evicted and the creation root was
    // never retained.
    let mut oldest = [0u8; 32];
    oldest[0] = 1;
    assert!(pool.is_valid_root(&oldest));
    let mut evicted = [0u8; 32];
    evicted[0] = 0;
    assert!(!pool.is_valid_root(&evicted));
    assert!(!pool.is_valid_root(&[7u8; 32]));
}

#[test]
fn test_pool_stats_from() {
    let mut pool = sample_pool();
    pool.total_shielded = 42;
    pool.next_leaf_index = 3;
    let stats = PoolStats::from(&pool);
    assert_eq!(stats.total_shielded, 42);
    assert_eq!(stats.total_notes, 3);
    assert!(stats.is_active);
    assert_eq!(stats.tree_depth, 4);
}

#[test]
fn test_le_to_be_reverses() {
    let mut bytes = [0u8; 32];
    for (i, b) in bytes.iter_mut().enumerate() {
        *b = i as u8;
    }
    let reversed = le_to_be(&bytes);
    for i in 0..32 {
        assert_eq!(reversed[i], bytes[31 - i]);
    }
    assert_eq!(le_to_be(&reversed), bytes);
}
