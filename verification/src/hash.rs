//! The tree hash: Keccak-256 over two 32-byte inputs.
//!
//! The pool fixes one two-input collision-resistant hash and uses it both for
//! the Merkle accumulator and for content-addressing the verification key.

use sha3::Digest;
use vstd::prelude::*;

verus! {

/// The digest that Keccak-256 assigns to a byte string. The digest is a pure
/// function of the input bytes; nothing further is assumed about its value.
pub uninterp spec fn keccak(data: Seq<u8>) -> Seq<u8>;

/// Relies on sha3::Keccak256 (via the Digest trait): hashes exactly the bytes
/// fed to it, produces a 32-byte digest, and depends on those bytes alone.
#[verifier::external_body]
pub(crate) fn keccak256(data: &[u8]) -> (r: [u8; 32])
    ensures
        r@ == keccak(data@),
        r@.len() == 32,
{
    let mut hasher = sha3::Keccak256::new();
    hasher.update(data);
    let digest = hasher.finalize();
    let mut out = [0u8; 32];
    out.copy_from_slice(&digest);
    out
}

/// The hash of an interior tree node with children `left` and `right`.
pub open spec fn hash_pair_spec(left: Seq<u8>, right: Seq<u8>) -> Seq<u8> {
    keccak(left + right)
}

/// Hash two 32-byte nodes into their parent node.
pub fn hash_pair(left: &[u8; 32], right: &[u8; 32]) -> (r: [u8; 32])
    ensures
        r@ == hash_pair_spec(left@, right@),
{
    let mut buf: Vec<u8> = Vec::new();
    buf.extend_from_slice(left.as_slice());
    buf.extend_from_slice(right.as_slice());
    proof {
        assert(buf@ =~= left@ + right@);
    }
    keccak256(buf.as_slice())
}

} // verus!
