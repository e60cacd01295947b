use sha3::{Digest, Keccak256};
use zk_shielded::errors::ZkShieldedError;
use zk_shielded::hash::hash_pair;
use zk_shielded::merkle::{MerkleProof, MerkleTreeState, ZERO_VALUE};

fn keccak_pair(left: &[u8; 32], right: &[u8; 32]) -> [u8; 32] {
    let mut hasher = Keccak256::new();
    hasher.update(left);
    hasher.update(right);
    let digest = hasher.finalize();
    let mut out = [0u8; 32];
    out.copy_from_slice(&digest);
    out
}

fn empty_tree(depth: u8) -> MerkleTreeState {
    MerkleTreeState::new([7u8; 32], depth, true)
}

/// The per-level zero values, computed independently of the library.
fn zeros(depth: usize) -> Vec<[u8; 32]> {
    let mut z = vec![ZERO_VALUE];
    for l in 1..=depth {
        let prev = z[l - 1];
        z.push(keccak_pair(&prev, &prev));
    }
    z
}

#[test]
fn test_initialize_root_is_zero_chain() {
    let tree = empty_tree(4);
    assert_eq!(tree.leaf_count, 0);
    assert_eq!(tree.depth, 4);
    assert_eq!(tree.root, zeros(4)[4]);
}

#[test]
fn test_hash_pair_matches_keccak() {
    let a = [0x11u8; 32];
    let b = [0x22u8; 32];
    let ours = hash_pair(&a, &b);
    assert_eq!(ours, keccak_pair(&a, &b));
    assert_ne!(ours, a);
}

#[test]
fn test_insert_computes_frontier_root() {
    let mut tree = empty_tree(4);
    let leaf = [0x11u8; 32];
    let index = tree.insert(leaf).unwrap();
    assert_eq!(index, 0);
    assert_eq!(tree.leaf_count, 1);
    let z = zeros(4);
    let mut expected = leaf;
    for level in 0..4 {
        expected = keccak_pair(&expected, &z[level]);
    }
    assert_eq!(tree.root, expected);
}

#[test]
fn test_insert_two_leaves() {
    let mut tree = empty_tree(4);
    let a = [0xaau8; 32];
    let b = [0xbbu8; 32];
    assert_eq!(tree.insert(a).unwrap(), 0);
    assert_eq!(tree.insert(b).unwrap(), 1);
    let z = zeros(4);
    let mut expected = keccak_pair(&a, &b);
    for level in 1..4 {
        expected = keccak_pair(&expected, &z[level]);
    }
    assert_eq!(tree.root, expected);
}

#[test]
fn test_full_tree_rejects_insert() {
    let mut tree = empty_tree(2);
    for i in 0..4u8 {
        assert_eq!(tree.insert([i; 32]).unwrap(), i as u64);
    }
    assert_eq!(tree.insert([9u8; 32]), Err(ZkShieldedError::MerkleTreeFull));
    assert_eq!(tree.leaf_count, 4);
}

#[test]
fn test_insert_with_root_trusts_client() {
    let mut tree = MerkleTreeState::new([7u8; 32], 4, false);
    let claimed = [0x5au8; 32];
    let index = tree.insert_with_root([0x11u8; 32], claimed).unwrap();
    assert_eq!(index, 0);
    assert_eq!(tree.root, claimed);
    assert_eq!(tree.leaf_count, 1);
}

#[test]
fn test_merkle_proof_roundtrip() {
    let mut tree = empty_tree(2);
    let a = [0xaau8; 32];
    let b = [0xbbu8; 32];
    tree.insert(a).unwrap();
    tree.insert(b).unwrap();
    let z = zeros(2);
    let proof = MerkleProof {
        leaf: a,
        path_indices: vec![0, 0],
        path_elements: vec![b, z[1]],
    };
    assert!(proof.verify(&tree.root));
    assert!(!proof.verify(&[0u8; 32]));
    let wrong = MerkleProof {
        leaf: b,
        path_indices: vec![0, 0],
        path_elements: vec![a, z[1]],
    };
    assert!(!wrong.verify(&tree.root));
}

#[test]
fn test_get_zero_for_level() {
    let tree = empty_tree(4);
    let z = zeros(4);
    for level in 0..=4usize {
        assert_eq!(tree.get_zero_for_level(level), z[level]);
    }
}
