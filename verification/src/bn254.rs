//! The BN254 curve operations behind the Groth16 verifier: G1 point
//! addition, G1 scalar multiplication and the multi-pairing check, performed
//! by the host's alt_bn128 precompiles.
//!
//! All three take uncompressed big-endian encodings. Each result is a pure
//! function of the input bytes, which these wrappers name; the precompile
//! rejects malformed encodings and points off the curve, and nothing more is
//! assumed about when that happens.

use vstd::prelude::*;

use crate::errors::ZkShieldedError;

verus! {

/// What the G1 addition precompile returns for two concatenated 64-byte
/// points, or `None` where it rejects the input.
pub uninterp spec fn g1_add_result(input: Seq<u8>) -> Option<Seq<u8>>;

/// What the G1 scalar-multiplication precompile returns for a 64-byte point
/// followed by a 32-byte scalar, or `None` where it rejects the input.
pub uninterp spec fn g1_mul_result(input: Seq<u8>) -> Option<Seq<u8>>;

/// What the pairing precompile returns for a sequence of (G1, G2) pairs, or
/// `None` where it rejects the input.
pub uninterp spec fn pairing_result(input: Seq<u8>) -> Option<Seq<u8>>;

/// Relies on solana_bn254::prelude::alt_bn128_g1_addition_be: deterministic
/// in the input bytes; on success the output is one 64-byte point.
#[verifier::external_body]
pub(crate) fn g1_addition(input: &Vec<u8>) -> (r: Result<Vec<u8>, ZkShieldedError>)
    ensures
        match r {
            Ok(v) => g1_add_result(input@) == Some(v@) && v@.len() == 64,
            Err(e) => g1_add_result(input@) is None && e == ZkShieldedError::InvalidProof,
        },
{
    match solana_bn254::prelude::alt_bn128_g1_addition_be(input.as_slice()) {
        Ok(v) => Ok(v),
        Err(_) => Err(ZkShieldedError::InvalidProof),
    }
}

/// Relies on solana_bn254::prelude::alt_bn128_g1_multiplication_be:
/// deterministic in the input bytes; on success the output is one 64-byte
/// point.
#[verifier::external_body]
pub(crate) fn g1_multiplication(input: &Vec<u8>) -> (r: Result<Vec<u8>, ZkShieldedError>)
    ensures
        match r {
            Ok(v) => g1_mul_result(input@) == Some(v@) && v@.len() == 64,
            Err(e) => g1_mul_result(input@) is None && e == ZkShieldedError::InvalidProof,
        },
{
    match solana_bn254::prelude::alt_bn128_g1_multiplication_be(input.as_slice()) {
        Ok(v) => Ok(v),
        Err(_) => Err(ZkShieldedError::InvalidProof),
    }
}

/// Relies on solana_bn254::prelude::alt_bn128_pairing_be: deterministic in
/// the input bytes; on success the output is a 32-byte big-endian word that
/// is 1 when the product of the pairings is the identity and 0 otherwise.
#[verifier::external_body]
pub(crate) fn bn254_pairing(input: &Vec<u8>) -> (r: Result<Vec<u8>, ZkShieldedError>)
    ensures
        match r {
            Ok(v) => pairing_result(input@) == Some(v@) && v@.len() == 32,
            Err(e) => pairing_result(input@) is None && e == ZkShieldedError::InvalidProof,
        },
{
    match solana_bn254::prelude::alt_bn128_pairing_be(input.as_slice()) {
        Ok(v) => Ok(v),
        Err(_) => Err(ZkShieldedError::InvalidProof),
    }
}

} // verus!
