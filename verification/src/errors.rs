//! The error taxonomy of the shielded pool.
//!
//! Every error is terminal for the containing operation: state is left
//! untouched whenever a handler returns one of these.

use vstd::prelude::*;

verus! {

/// Why an operation on the shielded pool was refused.
#[derive(Clone, Copy, Debug, PartialEq, Eq, Structural)]
pub enum ZkShieldedError {
    /// The pairing check failed or a precompile rejected its input.
    InvalidProof,
    /// A nullifier of the spend was (possibly) seen before.
    NullifierAlreadySpent,
    /// The referenced Merkle root is neither current nor in the window.
    InvalidMerkleRoot,
    /// The pool does not accept operations.
    PoolNotActive,
    /// The submitter is neither the pool authority nor the relayer it had to be.
    Unauthorized,
    /// A value-flow operation carried a zero amount.
    InvalidAmount,
    /// The tree already holds `2^depth` leaves.
    MerkleTreeFull,
    /// The pool's shielded balance is smaller than the requested amount.
    InsufficientBalance,
    /// A commitment was malformed.
    InvalidCommitment,
    /// The verification-key bytes are malformed or their hash does not match the pool.
    InvalidVerificationKey,
    /// The bloom filter reported a potential double spend.
    BloomFilterHit,
    /// The token identified by the operation is not the pool's token.
    TokenMintMismatch,
    /// The relayer fee exceeds the configured cap.
    RelayerFeeExceedsMax,
    /// The number of public inputs does not match the verification key.
    InvalidPublicInputs,
    /// A checked addition or subtraction on the pool's balance failed.
    ArithmeticOverflow,
    /// The token program account is absent for a non-native asset.
    MissingTokenProgram,
    /// The user token account is absent for a non-native asset.
    MissingTokenAccount,
    /// The pool vault account is absent for a non-native asset.
    MissingPoolVault,
    /// A token account's mint does not match the pool's token.
    InvalidTokenMint,
    /// A token account is not owned by the expected party.
    InvalidTokenOwner,
    /// The pool escrow holds too few spendable units for the withdrawal.
    InsufficientPoolBalance,
}

} // verus!
