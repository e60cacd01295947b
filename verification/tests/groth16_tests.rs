use sha3::{Digest, Keccak256};
use zk_shielded::errors::ZkShieldedError;
use zk_shielded::groth16::{Groth16Proof, Groth16Verifier, PreparedVerifyingKey};

fn keccak_ref(data: &[u8]) -> [u8; 32] {
    let mut hasher = Keccak256::new();
    hasher.update(data);
    let digest = hasher.finalize();
    let mut out = [0u8; 32];
    out.copy_from_slice(&digest);
    out
}

/// A verification key whose four fixed points and eight IC points are all the
/// group identity: the pairing product is then 1 for the all-zero proof.
fn identity_vk() -> Vec<u8> {
    let mut vk = vec![0u8; 452 + 8 * 64];
    vk[448] = 8;
    vk
}

fn zero_proof() -> Groth16Proof {
    Groth16Proof {
        pi_a: [0u8; 64],
        pi_b: [0u8; 128],
        pi_c: [0u8; 64],
    }
}

#[test]
fn test_i64_to_field_bytes_positive() {
    let value: i64 = 1000;
    let bytes = Groth16Verifier::i64_to_field_bytes(value);
    assert_eq!(bytes[0..8], 1000u64.to_le_bytes());
    assert_eq!(bytes[8..32], [0u8; 24]);
}

#[test]
fn test_i64_to_field_bytes_negative() {
    let value: i64 = -1000;
    let bytes = Groth16Verifier::i64_to_field_bytes(value);
    assert_eq!(bytes[31], 0x30);
    assert_eq!(bytes[0], 0x19);
}

#[test]
fn test_i64_to_field_bytes_negative_one() {
    let value: i64 = -1;
    let bytes = Groth16Verifier::i64_to_field_bytes(value);
    assert_eq!(bytes[0], 0x00);
    assert_eq!(bytes[31], 0x30);
}

#[test]
fn test_hash_verification_key_matches_keccak() {
    let vk = identity_vk();
    let ours = Groth16Verifier::hash_verification_key(&vk);
    assert_eq!(ours, keccak_ref(&vk));
    // The digest is not the input handed back.
    assert_ne!(&ours[..], &vk[0..32]);
}

#[test]
fn test_verify_rejects_short_vk() {
    let proof = zero_proof();
    let inputs = [[0u8; 32]; 7];
    let r = Groth16Verifier::verify(&proof, &inputs, &[0u8; 100]);
    assert_eq!(r, Err(ZkShieldedError::InvalidVerificationKey));
}

#[test]
fn test_verify_rejects_wrong_input_count() {
    let proof = zero_proof();
    let inputs = [[0u8; 32]; 7];
    // 452 zero bytes declare zero IC points; seven inputs need eight.
    let r = Groth16Verifier::verify(&proof, &inputs, &vec![0u8; 452]);
    assert_eq!(r, Err(ZkShieldedError::InvalidPublicInputs));
}

#[test]
fn test_verify_accepts_identity_instance() {
    let proof = zero_proof();
    let inputs = [[0u8; 32]; 7];
    let r = Groth16Verifier::verify(&proof, &inputs, &identity_vk());
    assert_eq!(r, Ok(true));
}

#[test]
fn test_verify_rejects_point_off_curve() {
    // x = y = 1 does not satisfy the curve equation, so the precompile
    // rejects the proof element A.
    let mut proof = zero_proof();
    proof.pi_a[31] = 1;
    proof.pi_a[63] = 1;
    let inputs = [[0u8; 32]; 7];
    let r = Groth16Verifier::verify(&proof, &inputs, &identity_vk());
    assert_eq!(r, Err(ZkShieldedError::InvalidProof));
}

#[test]
fn test_verify_transfer_identity_instance() {
    let proof = zero_proof();
    let vk = identity_vk();
    let r = Groth16Verifier::verify_transfer(
        &proof,
        &[1u8; 32],
        &[2u8; 32],
        &[3u8; 32],
        &[4u8; 32],
        &[5u8; 32],
        -25,
        &[6u8; 32],
        &vk,
    );
    assert_eq!(r, Ok(true));
}

/// The BN254 G2 generator in the precompile's big-endian encoding
/// (imaginary part of each coordinate first).
const G2_GENERATOR: [u8; 128] = [
    0x19, 0x8e, 0x93, 0x93, 0x92, 0x0d, 0x48, 0x3a, 0x72, 0x60, 0xbf, 0xb7, 0x31, 0xfb, 0x5d,
    0x25, 0xf1, 0xaa, 0x49, 0x33, 0x35, 0xa9, 0xe7, 0x12, 0x97, 0xe4, 0x85, 0xb7, 0xae, 0xf3,
    0x12, 0xc2, 0x18, 0x00, 0xde, 0xef, 0x12, 0x1f, 0x1e, 0x76, 0x42, 0x6a, 0x00, 0x66, 0x5e,
    0x5c, 0x44, 0x79, 0x67, 0x43, 0x22, 0xd4, 0xf7, 0x5e, 0xda, 0xdd, 0x46, 0xde, 0xbd, 0x5c,
    0xd9, 0x92, 0xf6, 0xed, 0x09, 0x06, 0x89, 0xd0, 0x58, 0x5f, 0xf0, 0x75, 0xec, 0x9e, 0x99,
    0xad, 0x69, 0x0c, 0x33, 0x95, 0xbc, 0x4b, 0x31, 0x33, 0x70, 0xb3, 0x8e, 0xf3, 0x55, 0xac,
    0xda, 0xdc, 0xd1, 0x22, 0x97, 0x5b, 0x12, 0xc8, 0x5e, 0xa5, 0xdb, 0x8c, 0x6d, 0xeb, 0x4a,
    0xab, 0x71, 0x80, 0x8d, 0xcb, 0x40, 0x8f, 0xe3, 0xd1, 0xe7, 0x69, 0x0c, 0x43, 0xd3, 0x7b,
    0x4c, 0xe6, 0xcc, 0x01, 0x66, 0xfa, 0x7d, 0xaa,
];

/// The BN254 G1 generator (1, 2), big-endian.
fn g1_generator() -> [u8; 64] {
    let mut g = [0u8; 64];
    g[31] = 1;
    g[63] = 2;
    g
}

#[test]
fn test_pairing_cancels_negated_pair() {
    // alpha and beta equal the proof's (A, B), so e(-A, B) · e(alpha, beta)
    // cancels and the remaining identity pairs leave the product at 1.
    let mut vk = identity_vk();
    vk[0..64].copy_from_slice(&g1_generator());
    vk[64..192].copy_from_slice(&G2_GENERATOR);
    let mut proof = zero_proof();
    proof.pi_a = g1_generator();
    proof.pi_b = G2_GENERATOR;
    let inputs = [[0u8; 32]; 7];
    assert_eq!(Groth16Verifier::verify(&proof, &inputs, &vk), Ok(true));
}

#[test]
fn test_pairing_detects_unbalanced_pair() {
    // Only e(-A, B) is non-trivial: the product cannot be 1.
    let mut proof = zero_proof();
    proof.pi_a = g1_generator();
    proof.pi_b = G2_GENERATOR;
    let inputs = [[0u8; 32]; 7];
    assert_eq!(
        Groth16Verifier::verify(&proof, &inputs, &identity_vk()),
        Ok(false)
    );
}

#[test]
fn test_prepared_vk_from_bytes() {
    let vk = identity_vk();
    let prepared = PreparedVerifyingKey::from_bytes(&vk).unwrap();
    assert_eq!(prepared.vk_data, vk);
    assert_eq!(prepared.vk_hash, keccak_ref(&vk));
}
