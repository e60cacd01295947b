//! A confidential-asset pool: a shielded ledger in which value enters as note
//! commitments, circulates via nullifiers, and exits to transparent recipients,
//! authorised by Groth16 proofs over BN254.
//!
//! The crate verifies the pool engine itself: the append-only Merkle
//! accumulator, the bloom-filter nullifier set, the verification-key store,
//! the Groth16 public-input plumbing, and the per-pool state machine that
//! enforces value conservation and replay resistance.

pub mod bn254;
pub mod encoding;
pub mod engine;
pub mod errors;
pub mod groth16;
pub mod hash;
pub mod merkle;
pub mod nullifier;
pub mod pool;
pub mod vkstore;
