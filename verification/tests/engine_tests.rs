use sha3::{Digest, Keccak256};
use zk_shielded::engine::ShieldedEngine;
use zk_shielded::errors::ZkShieldedError;
use zk_shielded::groth16::Groth16Proof;
use zk_shielded::merkle::ZERO_VALUE;

const POOL_ID: [u8; 32] = [1u8; 32];
const AUTHORITY: [u8; 32] = [2u8; 32];
const NATIVE_MINT: [u8; 32] = [0u8; 32];
const DEPOSITOR: [u8; 32] = [3u8; 32];
const RECIPIENT: [u8; 32] = [4u8; 32];

fn keccak_ref(data: &[u8]) -> [u8; 32] {
    let mut hasher = Keccak256::new();
    hasher.update(data);
    let digest = hasher.finalize();
    let mut out = [0u8; 32];
    out.copy_from_slice(&digest);
    out
}

fn keccak_pair(left: &[u8; 32], right: &[u8; 32]) -> [u8; 32] {
    let mut buf = Vec::with_capacity(64);
    buf.extend_from_slice(left);
    buf.extend_from_slice(right);
    keccak_ref(&buf)
}

/// A verification key whose points are all the group identity: the pairing
/// product is 1 for the all-zero proof, whatever the public inputs.
fn identity_vk() -> Vec<u8> {
    let mut vk = vec![0u8; 452 + 8 * 64];
    vk[448] = 8;
    vk
}

fn zero_proof() -> Groth16Proof {
    Groth16Proof {
        pi_a: [0u8; 64],
        pi_b: [0u8; 128],
        pi_c: [0u8; 64],
    }
}

fn pool_with_identity_vk(depth: u8) -> ShieldedEngine {
    let vk = identity_vk();
    ShieldedEngine::initialize_pool(POOL_ID, AUTHORITY, NATIVE_MINT, keccak_ref(&vk), depth, 100)
}

/// Shield 1 000 000 units into an empty depth-4 pool: one leaf, the full
/// balance, an empty window, and the root recomputed along the canonical
/// frontier.
#[test]
fn test_shield_scenario() {
    let mut engine = pool_with_identity_vk(4);
    let commitment = [0x11u8; 32];
    let ev = engine.shield(DEPOSITOR, 1_000_000, commitment, 101).unwrap();
    assert_eq!(engine.tree.leaf_count, 1);
    assert_eq!(engine.pool.next_leaf_index, 1);
    assert_eq!(engine.pool.total_shielded, 1_000_000);
    assert_eq!(engine.pool.historical_roots.len(), 0);
    let mut expected = commitment;
    let mut zero = ZERO_VALUE;
    for _ in 0..4 {
        expected = keccak_pair(&expected, &zero);
        zero = keccak_pair(&zero, &zero);
    }
    assert_eq!(engine.pool.merkle_root, expected);
    assert_eq!(ev.leaf_index, 0);
    assert_eq!(ev.amount, 1_000_000);
    assert_eq!(ev.new_root, expected);
    assert_eq!(ev.pool, POOL_ID);
}

/// Unshield the full balance from the pool of the shield scenario: balance
/// back to zero, both nullifiers recorded, no new leaf, the recipient
/// credited exactly the amount.
#[test]
fn test_unshield_scenario() {
    let mut engine = pool_with_identity_vk(4);
    engine.shield(DEPOSITOR, 1_000_000, [0x11u8; 32], 101).unwrap();
    let root = engine.pool.merkle_root;
    let n1 = [0xa1u8; 32];
    let n2 = [0u8; 32];
    let vk = identity_vk();
    let ev = engine
        .unshield(
            RECIPIENT,
            &zero_proof(),
            n1,
            n2,
            [0u8; 32],
            [0u8; 32],
            root,
            1_000_000,
            &vk,
            102,
        )
        .unwrap();
    assert_eq!(engine.pool.total_shielded, 0);
    assert!(engine.nullifiers.might_contain(&n1));
    assert!(engine.nullifiers.might_contain(&n2));
    assert_eq!(engine.tree.leaf_count, 1);
    assert_eq!(ev.change_leaf_index, None);
    assert_eq!(ev.amount, 1_000_000);
    assert_eq!(ev.recipient, RECIPIENT);
}

/// Repeating the unshield with the same first nullifier is rejected as a
/// replay before any state change or token movement — even though the first
/// unshield drained the pool, the answer is the replay, not the balance.
#[test]
fn test_double_spend_scenario() {
    let mut engine = pool_with_identity_vk(4);
    engine.shield(DEPOSITOR, 1_000_000, [0x11u8; 32], 101).unwrap();
    let root = engine.pool.merkle_root;
    let n1 = [0xa1u8; 32];
    let vk = identity_vk();
    engine
        .unshield(
            RECIPIENT,
            &zero_proof(),
            n1,
            [0u8; 32],
            [0u8; 32],
            [0u8; 32],
            root,
            1_000_000,
            &vk,
            102,
        )
        .unwrap();
    assert_eq!(engine.pool.total_shielded, 0);
    let r = engine.unshield(
        RECIPIENT,
        &zero_proof(),
        n1,
        [0u8; 32],
        [0u8; 32],
        [0u8; 32],
        root,
        1_000_000,
        &vk,
        103,
    );
    assert_eq!(r.err(), Some(ZkShieldedError::NullifierAlreadySpent));
    assert_eq!(engine.pool.total_shielded, 0);
    assert_eq!(engine.nullifiers.count, 2);
}

/// After 101 further shields, the root the pool was created with is outside
/// the acceptance window and any spend referencing it is rejected.
#[test]
fn test_stale_root_scenario() {
    let mut engine = pool_with_identity_vk(7);
    let stale_root = engine.pool.merkle_root;
    for i in 0..101u32 {
        let mut commitment = [0u8; 32];
        commitment[0..4].copy_from_slice(&i.to_le_bytes());
        engine.shield(DEPOSITOR, 1_000, commitment, 101).unwrap();
    }
    assert_eq!(engine.pool.historical_roots.len(), 100);
    let vk = identity_vk();
    let r = engine.transfer(
        &zero_proof(),
        [0xa1u8; 32],
        [0xa2u8; 32],
        [0xc1u8; 32],
        [0xc2u8; 32],
        stale_root,
        &vk,
        102,
    );
    assert_eq!(r.err(), Some(ZkShieldedError::InvalidMerkleRoot));
}

/// A root still inside the window is accepted: the same transfer against the
/// most recent root goes through.
#[test]
fn test_recent_root_accepted() {
    let mut engine = pool_with_identity_vk(7);
    engine.shield(DEPOSITOR, 1_000, [0x11u8; 32], 101).unwrap();
    let root_after_first = engine.pool.merkle_root;
    engine.shield(DEPOSITOR, 1_000, [0x12u8; 32], 102).unwrap();
    let vk = identity_vk();
    let total_before = engine.pool.total_shielded;
    let ev = engine
        .transfer(
            &zero_proof(),
            [0xa1u8; 32],
            [0xa2u8; 32],
            [0xc1u8; 32],
            [0xc2u8; 32],
            root_after_first,
            &vk,
            103,
        )
        .unwrap();
    assert_eq!(engine.pool.total_shielded, total_before);
    assert_eq!(engine.tree.leaf_count, 4);
    assert_eq!(ev.leaf_index_1, 2);
    assert_eq!(ev.leaf_index_2, 3);
}

/// Rotating the verification key makes every spend carrying the old key's
/// bytes fail the hash comparison.
#[test]
fn test_vk_rotation_scenario() {
    let mut engine = pool_with_identity_vk(4);
    engine.shield(DEPOSITOR, 1_000_000, [0x11u8; 32], 101).unwrap();
    let root = engine.pool.merkle_root;
    let vk_a = identity_vk();
    let mut vk_b = identity_vk();
    vk_b[0] = 0x55;
    let ev = engine
        .update_verification_key(AUTHORITY, keccak_ref(&vk_b), 102)
        .unwrap();
    assert_eq!(ev.new_vk_hash, keccak_ref(&vk_b));
    let r = engine.transfer(
        &zero_proof(),
        [0xa1u8; 32],
        [0xa2u8; 32],
        [0xc1u8; 32],
        [0xc2u8; 32],
        root,
        &vk_a,
        103,
    );
    assert_eq!(r.err(), Some(ZkShieldedError::InvalidVerificationKey));
}

/// Only the pool's authority may rotate the verification key.
#[test]
fn test_update_vk_requires_authority() {
    let mut engine = pool_with_identity_vk(4);
    let r = engine.update_verification_key([9u8; 32], [0x66u8; 32], 102);
    assert_eq!(r.err(), Some(ZkShieldedError::Unauthorized));
}

/// A relayer transfer submitted by anyone but the pool's relayer is rejected
/// before proof verification.
#[test]
fn test_relayer_unauthorized_scenario() {
    let mut engine = pool_with_identity_vk(4);
    engine.shield(DEPOSITOR, 1_000_000, [0x11u8; 32], 101).unwrap();
    let root = engine.pool.merkle_root;
    let vk = identity_vk();
    let r = engine.transfer_via_relayer(
        [9u8; 32],
        &zero_proof(),
        [0xa1u8; 32],
        [0xa2u8; 32],
        [0xc1u8; 32],
        [0xc2u8; 32],
        [0xc3u8; 32],
        root,
        &vk,
        102,
    );
    assert_eq!(r.err(), Some(ZkShieldedError::Unauthorized));
}

/// The relayer itself may submit, and the three outputs are appended.
#[test]
fn test_relayer_transfer_accepted() {
    let mut engine = pool_with_identity_vk(4);
    engine.shield(DEPOSITOR, 1_000_000, [0x11u8; 32], 101).unwrap();
    let root = engine.pool.merkle_root;
    let vk = identity_vk();
    let ev = engine
        .transfer_via_relayer(
            AUTHORITY,
            &zero_proof(),
            [0xa1u8; 32],
            [0xa2u8; 32],
            [0xc1u8; 32],
            [0xc2u8; 32],
            [0xc3u8; 32],
            root,
            &vk,
            102,
        )
        .unwrap();
    assert_eq!(engine.tree.leaf_count, 4);
    assert_eq!(ev.leaf_indices, [1, 2, 3]);
    assert_eq!(engine.pool.total_shielded, 1_000_000);
}

/// A zero amount is rejected on shield and unshield alike.
#[test]
fn test_zero_amount_rejected() {
    let mut engine = pool_with_identity_vk(4);
    assert_eq!(
        engine.shield(DEPOSITOR, 0, [0x11u8; 32], 101).err(),
        Some(ZkShieldedError::InvalidAmount)
    );
    engine.shield(DEPOSITOR, 1_000, [0x11u8; 32], 101).unwrap();
    let root = engine.pool.merkle_root;
    let vk = identity_vk();
    let r = engine.unshield(
        RECIPIENT,
        &zero_proof(),
        [0xa1u8; 32],
        [0u8; 32],
        [0u8; 32],
        [0u8; 32],
        root,
        0,
        &vk,
        102,
    );
    assert_eq!(r.err(), Some(ZkShieldedError::InvalidAmount));
}

/// Unshielding more than the shielded balance is rejected.
#[test]
fn test_insufficient_balance_rejected() {
    let mut engine = pool_with_identity_vk(4);
    engine.shield(DEPOSITOR, 1_000, [0x11u8; 32], 101).unwrap();
    let root = engine.pool.merkle_root;
    let vk = identity_vk();
    let r = engine.unshield(
        RECIPIENT,
        &zero_proof(),
        [0xa1u8; 32],
        [0u8; 32],
        [0u8; 32],
        [0u8; 32],
        root,
        2_000,
        &vk,
        102,
    );
    assert_eq!(r.err(), Some(ZkShieldedError::InsufficientBalance));
}

/// A full tree accepts no further shields.
#[test]
fn test_full_tree_rejects_shield() {
    let mut engine = pool_with_identity_vk(1);
    engine.shield(DEPOSITOR, 1, [0x01u8; 32], 101).unwrap();
    engine.shield(DEPOSITOR, 1, [0x02u8; 32], 102).unwrap();
    let r = engine.shield(DEPOSITOR, 1, [0x03u8; 32], 103);
    assert_eq!(r.err(), Some(ZkShieldedError::MerkleTreeFull));
    assert_eq!(engine.pool.total_shielded, 2);
}

/// A shield that would overflow the balance accumulator is rejected before
/// any state change.
#[test]
fn test_balance_overflow_rejected() {
    let mut engine = pool_with_identity_vk(4);
    engine.shield(DEPOSITOR, u64::MAX, [0x11u8; 32], 101).unwrap();
    let r = engine.shield(DEPOSITOR, 1, [0x12u8; 32], 102);
    assert_eq!(r.err(), Some(ZkShieldedError::ArithmeticOverflow));
    assert_eq!(engine.pool.total_shielded, u64::MAX);
    assert_eq!(engine.tree.leaf_count, 1);
}

/// An inactive pool rejects value-flow operations.
#[test]
fn test_inactive_pool_rejected() {
    let mut engine = pool_with_identity_vk(4);
    engine.pool.is_active = false;
    assert_eq!(
        engine.shield(DEPOSITOR, 1_000, [0x11u8; 32], 101).err(),
        Some(ZkShieldedError::PoolNotActive)
    );
}

/// An unshield that keeps change appends exactly the change note.
#[test]
fn test_unshield_with_change_note() {
    let mut engine = pool_with_identity_vk(4);
    engine.shield(DEPOSITOR, 5_000, [0x11u8; 32], 101).unwrap();
    let root = engine.pool.merkle_root;
    let vk = identity_vk();
    let change = [0x22u8; 32];
    let ev = engine
        .unshield(
            RECIPIENT,
            &zero_proof(),
            [0xa1u8; 32],
            [0xa2u8; 32],
            change,
            [0u8; 32],
            root,
            2_000,
            &vk,
            102,
        )
        .unwrap();
    assert_eq!(engine.pool.total_shielded, 3_000);
    assert_eq!(engine.tree.leaf_count, 2);
    assert_eq!(ev.change_leaf_index, Some(1));
    assert_eq!(ev.change_commitment, change);
}

/// An invalid proof (a point off the curve) is rejected by the verifier and
/// leaves the pool untouched.
#[test]
fn test_invalid_proof_rejected() {
    let mut engine = pool_with_identity_vk(4);
    engine.shield(DEPOSITOR, 1_000, [0x11u8; 32], 101).unwrap();
    let root = engine.pool.merkle_root;
    let vk = identity_vk();
    let mut bad = zero_proof();
    bad.pi_a[31] = 1;
    bad.pi_a[63] = 1;
    let r = engine.transfer(
        &bad,
        [0xa1u8; 32],
        [0xa2u8; 32],
        [0xc1u8; 32],
        [0xc2u8; 32],
        root,
        &vk,
        102,
    );
    assert_eq!(r.err(), Some(ZkShieldedError::InvalidProof));
    assert_eq!(engine.tree.leaf_count, 1);
    assert_eq!(engine.nullifiers.count, 0);
}
