//! The Groth16 verifier over BN254: parse the verification key, assemble the
//! public-input linear combination, and run the four-pairing check
//! `e(-A, B) · e(α, β) · e(IC_sum, γ) · e(C, δ) = 1`.
//!
//! Callers supply 32-byte values little-endian; the verifier reverses them,
//! and the pairing precompile receives big-endian bytes.

use vstd::arithmetic::power2::{lemma2_to64, lemma2_to64_rest, pow2};
use vstd::prelude::*;

use crate::bn254::{
    bn254_pairing, g1_add_result, g1_addition, g1_mul_result, g1_multiplication, pairing_result,
};
use crate::encoding::{
    be_val, bytes32_eq, le_bytes_of, le_to_be, le_val, lemma_le_bytes_of_le_val, lemma_le_val_bound,
    sub32_le, u64_to_le_bytes32,
};
use crate::errors::ZkShieldedError;
use crate::hash::{keccak, keccak256};

verus! {

/// The BN254 base-field modulus `q`, little-endian.
pub const BASE_FIELD_MODULUS_LE: [u8; 32] = [
    0x47,
    0xfd,
    0x7c,
    0xd8,
    0x16,
    0x8c,
    0x20,
    0x3c,
    0x8d,
    0xca,
    0x71,
    0x68,
    0x91,
    0x6a,
    0x81,
    0x97,
    0x5d,
    0x58,
    0x81,
    0x81,
    0xb6,
    0x45,
    0x50,
    0xb8,
    0x29,
    0xa0,
    0x31,
    0xe1,
    0x72,
    0x4e,
    0x64,
    0x30,
];

/// The BN254 scalar-field modulus `r`, little-endian.
pub const SCALAR_FIELD_MODULUS_LE: [u8; 32] = [
    0x01,
    0x00,
    0x00,
    0xf0,
    0x93,
    0xf5,
    0xe1,
    0x43,
    0x91,
    0x70,
    0xb9,
    0x79,
    0x48,
    0xe8,
    0x33,
    0x28,
    0x5d,
    0x58,
    0x81,
    0x81,
    0xb6,
    0x45,
    0x50,
    0xb8,
    0x29,
    0xa0,
    0x31,
    0xe1,
    0x72,
    0x4e,
    0x64,
    0x30,
];

/// The base-field modulus as a number.
pub open spec fn base_field_modulus() -> nat {
    le_val(BASE_FIELD_MODULUS_LE@)
}

/// The scalar-field modulus as a number.
pub open spec fn scalar_field_modulus() -> nat {
    le_val(SCALAR_FIELD_MODULUS_LE@)
}

/// Groth16 proof: A and C are G1 points (64 bytes, affine, uncompressed,
/// big-endian x‖y); B is a G2 point (128 bytes).
#[derive(Clone, Debug)]
pub struct Groth16Proof {
    /// The proof element A.
    pub pi_a: [u8; 64],
    /// The proof element B.
    pub pi_b: [u8; 128],
    /// The proof element C.
    pub pi_c: [u8; 64],
}

/// The number of IC points the verification-key blob declares.
pub open spec fn vk_ic_count(vk: Seq<u8>) -> nat {
    vstd::bytes::spec_u32_from_le_bytes(vk.subrange(448, 452)) as nat
}

/// Whether the blob is long enough for its fixed part and its declared IC
/// points.
pub open spec fn vk_ok(vk: Seq<u8>) -> bool {
    &&& vk.len() >= 452
    &&& vk.len() >= 452 + vk_ic_count(vk) * 64
}

/// The fixed point `alpha` in G1.
pub open spec fn vk_alpha_g1(vk: Seq<u8>) -> Seq<u8> {
    vk.subrange(0, 64)
}

/// The fixed point `beta` in G2.
pub open spec fn vk_beta_g2(vk: Seq<u8>) -> Seq<u8> {
    vk.subrange(64, 192)
}

/// The fixed point `gamma` in G2.
pub open spec fn vk_gamma_g2(vk: Seq<u8>) -> Seq<u8> {
    vk.subrange(192, 320)
}

/// The fixed point `delta` in G2.
pub open spec fn vk_delta_g2(vk: Seq<u8>) -> Seq<u8> {
    vk.subrange(320, 448)
}

/// The `i`-th IC point.
pub open spec fn vk_ic(vk: Seq<u8>, i: int) -> Seq<u8> {
    vk.subrange(452 + 64 * i, 452 + 64 * i + 64)
}

/// The accumulated linear combination `IC[0] + Σ_{j<i} inputs[j] · IC[j+1]`,
/// as the precompiles compute it, or `None` as soon as one of them rejects.
pub open spec fn ic_fold(inputs: Seq<Seq<u8>>, vk: Seq<u8>, i: int) -> Option<Seq<u8>>
    decreases i,
{
    if i <= 0 {
        Option::Some(vk_ic(vk, 0))
    } else {
        match ic_fold(inputs, vk, i - 1) {
            Option::None => Option::None,
            Option::Some(acc) => match g1_mul_result(vk_ic(vk, i) + inputs[i - 1]) {
                Option::None => Option::None,
                Option::Some(prod) => g1_add_result(acc + prod),
            },
        }
    }
}

/// Whether the y half of an uncompressed G1 point is zero.
pub open spec fn g1_y_is_zero(p: Seq<u8>) -> bool {
    forall|i: int| 32 <= i < 64 ==> p[i] == 0
}

/// The negation of a big-endian uncompressed G1 point: `(x, q - y)`, with
/// the point left unchanged when `y = 0`.
pub open spec fn g1_neg_spec(p: Seq<u8>) -> Seq<u8> {
    if g1_y_is_zero(p) {
        p
    } else {
        p.subrange(0, 32) + le_bytes_of(
            ((base_field_modulus() - be_val(p.subrange(32, 64))) % (pow2(256) as int)) as nat,
            32,
        ).reverse()
    }
}

/// Whether a pairing-precompile output encodes 1 (the check passed).
pub open spec fn pairing_output_is_one(out: Seq<u8>) -> bool {
    &&& out.len() == 32
    &&& out[31] == 1
    &&& forall|i: int| 0 <= i < 31 ==> out[i] == 0
}

/// The pairing check's verdict on a buffer, or `None` where the precompile
/// rejects it.
pub open spec fn pairing_accepts(input: Seq<u8>) -> Option<bool> {
    match pairing_result(input) {
        Option::None => Option::None,
        Option::Some(v) => Option::Some(pairing_output_is_one(v)),
    }
}

/// The buffer handed to the pairing precompile: the four (G1, G2) pairs.
pub open spec fn pairing_buffer(pf: Groth16Proof, vk: Seq<u8>, ic_sum: Seq<u8>) -> Seq<u8> {
    g1_neg_spec(pf.pi_a@) + pf.pi_b@ + vk_alpha_g1(vk) + vk_beta_g2(vk) + ic_sum + vk_gamma_g2(vk)
        + pf.pi_c@ + vk_delta_g2(vk)
}

/// What verification returns: each malformation is caught in a fixed order,
/// and otherwise the pairing check decides.
pub open spec fn groth16_verify_spec(
    pf: Groth16Proof,
    inputs: Seq<Seq<u8>>,
    vk: Seq<u8>,
) -> Result<bool, ZkShieldedError> {
    if !vk_ok(vk) {
        Result::Err(ZkShieldedError::InvalidVerificationKey)
    } else if vk_ic_count(vk) != inputs.len() + 1 {
        Result::Err(ZkShieldedError::InvalidPublicInputs)
    } else {
        match ic_fold(inputs, vk, inputs.len() as int) {
            Option::None => Result::Err(ZkShieldedError::InvalidProof),
            Option::Some(ic_sum) => match pairing_accepts(pairing_buffer(pf, vk, ic_sum)) {
                Option::None => Result::Err(ZkShieldedError::InvalidProof),
                Option::Some(b) => Result::Ok(b),
            },
        }
    }
}

/// The 32-byte little-endian scalar encoding a signed public amount:
/// non-negative values directly, negative values as `r - |x|` in the scalar
/// field.
pub open spec fn field_bytes_spec(v: i64) -> Seq<u8> {
    le_bytes_of(
        if v >= 0 {
            v as nat
        } else {
            (scalar_field_modulus() - (-(v as int))) as nat
        },
        32,
    )
}

/// The seven public inputs of a value-flow proof, converted to big-endian in
/// their fixed order.
pub open spec fn transfer_public_inputs(
    merkle_root: Seq<u8>,
    nullifier_1: Seq<u8>,
    nullifier_2: Seq<u8>,
    output_commitment_1: Seq<u8>,
    output_commitment_2: Seq<u8>,
    public_amount: i64,
    token_mint: Seq<u8>,
) -> Seq<Seq<u8>> {
    seq![
        merkle_root.reverse(),
        nullifier_1.reverse(),
        nullifier_2.reverse(),
        output_commitment_1.reverse(),
        output_commitment_2.reverse(),
        field_bytes_spec(public_amount).reverse(),
        token_mint.reverse(),
    ]
}

/// Parsed verification key data.
struct VerificationKeyData {
    alpha_g1: [u8; 64],
    beta_g2: [u8; 128],
    gamma_g2: [u8; 128],
    delta_g2: [u8; 128],
    ic: Vec<[u8; 64]>,
}

/// Copy `N` bytes out of a slice, starting at `off`.
fn copy_bytes<const N: usize>(src: &[u8], off: usize) -> (r: [u8; N])
    requires
        off + N <= src@.len(),
    ensures
        r@ == src@.subrange(off as int, off as int + N),
{
    let n = src.len();
    let mut out = [0u8; N];
    let mut i: usize = 0;
    while i < N
        invariant
            i <= N,
            off + N <= src@.len(),
            src@.len() == n,
            out@.len() == N,
            forall|j: int| 0 <= j < i ==> out@[j] == src@[off + j],
        decreases N - i,
    {
        out[i] = src[off + i];
        i = i + 1;
    }
    proof {
        assert(out@ =~= src@.subrange(off as int, off as int + N));
    }
    out
}

/// Copy a 64-byte vector into an array.
fn vec_to_array64(v: &Vec<u8>) -> (r: [u8; 64])
    requires
        v@.len() == 64,
    ensures
        r@ == v@,
{
    let mut out = [0u8; 64];
    let mut i: usize = 0;
    while i < 64
        invariant
            i <= 64,
            v@.len() == 64,
            forall|j: int| 0 <= j < i ==> out@[j] == v@[j],
        decreases 64 - i,
    {
        out[i] = v[i];
        i = i + 1;
    }
    proof {
        assert(out@ =~= v@);
    }
    out
}

/// A failed fold stays failed however far it is carried.
proof fn lemma_ic_fold_none(inputs: Seq<Seq<u8>>, vk: Seq<u8>, i: int, j: int)
    requires
        0 <= i <= j,
        ic_fold(inputs, vk, i) is None,
    ensures
        ic_fold(inputs, vk, j) is None,
    decreases j - i,
{
    if i < j {
        lemma_ic_fold_none(inputs, vk, i, j - 1);
    }
}

/// On-chain Groth16 proof verification for the BN254 curve, via the host's
/// alt_bn128 precompiles.
pub struct Groth16Verifier;

impl Groth16Verifier {
    /// Verify a Groth16 proof: parse the key, fold the public inputs into
    /// the IC combination, and run the pairing check.
    pub fn verify(proof: &Groth16Proof, public_inputs: &[[u8; 32]], vk_data: &[u8]) -> (r: Result<
        bool,
        ZkShieldedError,
    >)
        ensures
            r == groth16_verify_spec(*proof, public_inputs.deep_view(), vk_data@),
    {
        let ghost inputs_view = public_inputs.deep_view();
        let vk = match Self::parse_vk(vk_data) {
            Ok(vk) => vk,
            Err(e) => {
                return Err(e);
            },
        };
        let ic_sum = match Self::compute_ic_sum(public_inputs, &vk.ic, Ghost(vk_data@)) {
            Ok(s) => s,
            Err(e) => {
                return Err(e);
            },
        };
        let pairing_input = Self::build_pairing_input(proof, &vk, &ic_sum);
        Self::pairing_check(&pairing_input)
    }

    /// Verify a value-flow proof with the standard seven public inputs.
    /// Inputs arrive little-endian and are converted to big-endian here.
    pub fn verify_transfer(
        proof: &Groth16Proof,
        merkle_root: &[u8; 32],
        nullifier_1: &[u8; 32],
        nullifier_2: &[u8; 32],
        output_commitment_1: &[u8; 32],
        output_commitment_2: &[u8; 32],
        public_amount: i64,
        token_mint: &[u8; 32],
        vk_data: &[u8],
    ) -> (r: Result<bool, ZkShieldedError>)
        ensures
            r == groth16_verify_spec(
                *proof,
                transfer_public_inputs(
                    merkle_root@,
                    nullifier_1@,
                    nullifier_2@,
                    output_commitment_1@,
                    output_commitment_2@,
                    public_amount,
                    token_mint@,
                ),
                vk_data@,
            ),
    {
        let public_amount_bytes = Self::i64_to_field_bytes(public_amount);
        let public_inputs: [[u8; 32]; 7] = [
            le_to_be(merkle_root),
            le_to_be(nullifier_1),
            le_to_be(nullifier_2),
            le_to_be(output_commitment_1),
            le_to_be(output_commitment_2),
            le_to_be(&public_amount_bytes),
            le_to_be(token_mint),
        ];
        proof {
            assert(public_inputs.deep_view() =~~= transfer_public_inputs(
                merkle_root@,
                nullifier_1@,
                nullifier_2@,
                output_commitment_1@,
                output_commitment_2@,
                public_amount,
                token_mint@,
            ));
        }
        Self::verify(proof, public_inputs.as_slice(), vk_data)
    }

    /// Parse the verification-key blob:
    /// `alpha (64) ‖ beta (128) ‖ gamma (128) ‖ delta (128) ‖ ic_count (4, LE)
    /// ‖ IC[] (64 each)`.
    fn parse_vk(vk_data: &[u8]) -> (r: Result<VerificationKeyData, ZkShieldedError>)
        ensures
            match r {
                Ok(vk) => {
                    &&& vk_ok(vk_data@)
                    &&& vk.alpha_g1@ == vk_alpha_g1(vk_data@)
                    &&& vk.beta_g2@ == vk_beta_g2(vk_data@)
                    &&& vk.gamma_g2@ == vk_gamma_g2(vk_data@)
                    &&& vk.delta_g2@ == vk_delta_g2(vk_data@)
                    &&& vk.ic@.len() == vk_ic_count(vk_data@)
                    &&& forall|i: int| 0 <= i < vk.ic@.len() ==> vk.ic@[i]@ == vk_ic(vk_data@, i)
                },
                Err(e) => {
                    &&& !vk_ok(vk_data@)
                    &&& e == ZkShieldedError::InvalidVerificationKey
                },
            },
    {
        if vk_data.len() < 452 {
            return Err(ZkShieldedError::InvalidVerificationKey);
        }
        let alpha_g1 = copy_bytes::<64>(vk_data, 0);
        let beta_g2 = copy_bytes::<128>(vk_data, 64);
        let gamma_g2 = copy_bytes::<128>(vk_data, 192);
        let delta_g2 = copy_bytes::<128>(vk_data, 320);
        let count_bytes = &vk_data[448..452];
        let ic_count = vstd::bytes::u32_from_le_bytes(count_bytes) as usize;
        let room = (vk_data.len() - 452) / 64;
        proof {
            lemma_mul_div_le(ic_count as int, (vk_data@.len() - 452) as int, 64);
        }
        if ic_count > room {
            return Err(ZkShieldedError::InvalidVerificationKey);
        }
        let data_len = vk_data.len();
        let mut ic: Vec<[u8; 64]> = Vec::new();
        let mut i: usize = 0;
        while i < ic_count
            invariant
                i <= ic_count,
                452 + ic_count * 64 <= vk_data@.len(),
                vk_data@.len() == data_len,
                ic@.len() == i,
                forall|j: int| 0 <= j < i ==> ic@[j]@ == vk_ic(vk_data@, j),
            decreases ic_count - i,
        {
            proof {
                assert((i + 1) * 64 <= ic_count * 64) by (nonlinear_arith)
                    requires
                        i + 1 <= ic_count,
                ;
                assert(i * 64 + 64 == (i + 1) * 64) by (nonlinear_arith);
            }
            let point = copy_bytes::<64>(vk_data, 452 + i * 64);
            ic.push(point);
            i = i + 1;
        }
        Ok(VerificationKeyData { alpha_g1, beta_g2, gamma_g2, delta_g2, ic })
    }

    /// Compute `IC[0] + Σ pub_i · IC[i+1]` with the G1 precompiles.
    fn compute_ic_sum(
        public_inputs: &[[u8; 32]],
        ic: &Vec<[u8; 64]>,
        Ghost(vk): Ghost<Seq<u8>>,
    ) -> (r: Result<[u8; 64], ZkShieldedError>)
        requires
            ic@.len() == vk_ic_count(vk),
            forall|i: int| 0 <= i < ic@.len() ==> ic@[i]@ == vk_ic(vk, i),
        ensures
            match r {
                Ok(sum) => {
                    &&& ic@.len() == public_inputs@.len() + 1
                    &&& ic_fold(
                        public_inputs.deep_view(),
                        vk,
                        public_inputs@.len() as int,
                    ) == Some(sum@)
                },
                Err(e) => {
                    if ic@.len() != public_inputs@.len() + 1 {
                        e == ZkShieldedError::InvalidPublicInputs
                    } else {
                        &&& ic_fold(public_inputs.deep_view(), vk, public_inputs@.len() as int)
                            is None
                        &&& e == ZkShieldedError::InvalidProof
                    }
                },
            },
    {
        let ghost inputs_view = public_inputs.deep_view();
        if ic.len() == 0 || public_inputs.len() != ic.len() - 1 {
            return Err(ZkShieldedError::InvalidPublicInputs);
        }
        let mut result: [u8; 64] = ic[0];
        let mut i: usize = 0;
        while i < public_inputs.len()
            invariant
                i <= public_inputs@.len(),
                ic@.len() == public_inputs@.len() + 1,
                ic@.len() == vk_ic_count(vk),
                forall|j: int| 0 <= j < ic@.len() ==> ic@[j]@ == vk_ic(vk, j),
                inputs_view == public_inputs.deep_view(),
                inputs_view.len() == public_inputs@.len(),
                forall|j: int| 0 <= j < inputs_view.len() ==> inputs_view[j] == public_inputs@[j]@,
                ic_fold(inputs_view, vk, i as int) == Some(result@),
            decreases public_inputs@.len() - i,
        {
            let mut mul_input: Vec<u8> = Vec::new();
            mul_input.extend_from_slice(ic[i + 1].as_slice());
            mul_input.extend_from_slice(public_inputs[i].as_slice());
            proof {
                assert(mul_input@ =~= vk_ic(vk, i + 1) + inputs_view[i as int]);
            }
            let prod = match g1_multiplication(&mul_input) {
                Ok(v) => v,
                Err(e) => {
                    proof {
                        lemma_ic_fold_none(inputs_view, vk, i + 1, inputs_view.len() as int);
                    }
                    return Err(e);
                },
            };
            let mut add_input: Vec<u8> = Vec::new();
            add_input.extend_from_slice(result.as_slice());
            add_input.extend_from_slice(prod.as_slice());
            proof {
                assert(add_input@ =~= result@ + prod@);
            }
            let sum = match g1_addition(&add_input) {
                Ok(v) => v,
                Err(e) => {
                    proof {
                        lemma_ic_fold_none(inputs_view, vk, i + 1, inputs_view.len() as int);
                    }
                    return Err(e);
                },
            };
            result = vec_to_array64(&sum);
            i = i + 1;
        }
        Ok(result)
    }

    /// Concatenate the four (G1, G2) pairs of the verification equation.
    fn build_pairing_input(
        proof: &Groth16Proof,
        vk: &VerificationKeyData,
        ic_sum: &[u8; 64],
    ) -> (r: Vec<u8>)
        ensures
            r@ == g1_neg_spec(proof.pi_a@) + proof.pi_b@ + vk.alpha_g1@ + vk.beta_g2@ + ic_sum@
                + vk.gamma_g2@ + proof.pi_c@ + vk.delta_g2@,
    {
        let neg_a = Self::g1_negate(&proof.pi_a);
        let mut input: Vec<u8> = Vec::new();
        input.extend_from_slice(neg_a.as_slice());
        input.extend_from_slice(proof.pi_b.as_slice());
        input.extend_from_slice(vk.alpha_g1.as_slice());
        input.extend_from_slice(vk.beta_g2.as_slice());
        input.extend_from_slice(ic_sum.as_slice());
        input.extend_from_slice(vk.gamma_g2.as_slice());
        input.extend_from_slice(proof.pi_c.as_slice());
        input.extend_from_slice(vk.delta_g2.as_slice());
        proof {
            assert(input@ =~= g1_neg_spec(proof.pi_a@) + proof.pi_b@ + vk.alpha_g1@ + vk.beta_g2@
                + ic_sum@ + vk.gamma_g2@ + proof.pi_c@ + vk.delta_g2@);
        }
        input
    }

    /// Negate a G1 point by replacing `y` with `q - y` over the base field;
    /// a zero `y` is left unchanged.
    fn g1_negate(p: &[u8; 64]) -> (r: [u8; 64])
        ensures
            r@ == g1_neg_spec(p@),
    {
        let mut y = [0u8; 32];
        let mut i: usize = 0;
        while i < 32
            invariant
                i <= 32,
                forall|j: int| 0 <= j < i ==> y@[j] == p@[32 + j],
            decreases 32 - i,
        {
            y[i] = p[32 + i];
            i = i + 1;
        }
        proof {
            assert(y@ =~= p@.subrange(32, 64));
        }
        let zero = [0u8; 32];
        if bytes32_eq(&y, &zero) {
            proof {
                assert forall|k: int| 32 <= k < 64 implies p@[k] == 0 by {
                    assert(y@[k - 32] == p@[k]);
                    assert(y@[k - 32] == zero@[k - 32]);
                }
                assert(g1_y_is_zero(p@));
            }
            return *p;
        }
        let y_le = le_to_be(&y);
        let (diff_le, borrow) = sub32_le(&BASE_FIELD_MODULUS_LE, &y_le);
        let diff_be = le_to_be(&diff_le);
        let mut out = *p;
        let mut i: usize = 0;
        while i < 32
            invariant
                i <= 32,
                forall|j: int| 0 <= j < 32 ==> #[trigger] out@[j] == p@[j],
                forall|j: int| 0 <= j < i ==> #[trigger] out@[32 + j] == diff_be@[j],
                forall|j: int| i <= j < 32 ==> #[trigger] out@[32 + j] == p@[32 + j],
            decreases 32 - i,
        {
            out[32 + i] = diff_be[i];
            i = i + 1;
        }
        proof {
            assert(!g1_y_is_zero(p@)) by {
                assert(y@ != zero@);
                assert(exists|j: int| 0 <= j < 32 && y@[j] != 0) by {
                    if forall|j: int| 0 <= j < 32 ==> y@[j] == 0 {
                        assert(y@ =~= zero@);
                    }
                }
                let j = choose|j: int| 0 <= j < 32 && y@[j] != 0;
                assert(p@[32 + j] != 0);
            }
            let q = base_field_modulus() as int;
            let yv = be_val(p@.subrange(32, 64)) as int;
            assert(be_val(y@) == le_val(y_le@));
            lemma_le_val_bound(y_le@);
            lemma_le_val_bound(BASE_FIELD_MODULUS_LE@);
            let v = q - yv + (if borrow {
                pow2(256) as int
            } else {
                0
            });
            assert(le_val(diff_le@) == v);
            vstd::arithmetic::div_mod::lemma_fundamental_div_mod_converse(
                q - yv,
                pow2(256) as int,
                if borrow {
                    -1
                } else {
                    0
                },
                v,
            );
            assert(v == (q - yv) % (pow2(256) as int));
            lemma_le_bytes_of_le_val(diff_le@);
            assert(diff_le@ =~= le_bytes_of(v as nat, 32));
            assert(le_bytes_of(
                ((base_field_modulus() - be_val(p@.subrange(32, 64))) % (pow2(256) as int)) as nat,
                32,
            ) == diff_le@);
            assert(g1_neg_spec(p@) == p@.subrange(0, 32) + diff_le@.reverse());
            assert forall|k: int| 0 <= k < 64 implies out@[k] == g1_neg_spec(p@)[k] by {
                if k < 32 {
                    assert(out@[k] == p@[k]);
                    assert(g1_neg_spec(p@)[k] == p@.subrange(0, 32)[k]);
                } else {
                    assert(out@[32 + (k - 32)] == diff_be@[k - 32]);
                    assert(out@[k] == diff_be@[k - 32]);
                    assert(diff_be@[k - 32] == diff_le@.reverse()[k - 32]);
                }
            }
            assert(g1_neg_spec(p@).len() == 64);
            assert(out@ =~= g1_neg_spec(p@));
        }
        out
    }

    /// Execute the pairing check on the assembled buffer: the proof is valid
    /// exactly when the precompile returns the 32-byte big-endian 1.
    fn pairing_check(input: &Vec<u8>) -> (r: Result<bool, ZkShieldedError>)
        ensures
            match r {
                Ok(b) => pairing_accepts(input@) == Some(b),
                Err(e) => pairing_accepts(input@) is None && e == ZkShieldedError::InvalidProof,
            },
    {
        let result = match bn254_pairing(input) {
            Ok(v) => v,
            Err(e) => {
                return Err(e);
            },
        };
        if result.len() != 32 {
            return Ok(false);
        }
        if result[31] != 1 {
            return Ok(false);
        }
        let mut i: usize = 0;
        while i < 31
            invariant
                i <= 31,
                result@.len() == 32,
                pairing_result(input@) == Some(result@),
                result@[31] == 1,
                forall|j: int| 0 <= j < i ==> result@[j] == 0,
            decreases 31 - i,
        {
            if result[i] != 0 {
                return Ok(false);
            }
            i = i + 1;
        }
        Ok(true)
    }

    /// Convert a signed amount to its 32-byte little-endian scalar: the value
    /// itself when non-negative, `r - |x|` in the scalar field otherwise.
    pub fn i64_to_field_bytes(value: i64) -> (r: [u8; 32])
        ensures
            r@ == field_bytes_spec(value),
    {
        if value >= 0 {
            let out = u64_to_le_bytes32(value as u64);
            proof {
                lemma_le_bytes_of_le_val(out@);
            }
            out
        } else {
            let abs: u64 = if value == i64::MIN {
                9223372036854775808u64
            } else {
                (-value) as u64
            };
            let abs_bytes = u64_to_le_bytes32(abs);
            let (out, borrow) = sub32_le(&SCALAR_FIELD_MODULUS_LE, &abs_bytes);
            proof {
                assert(SCALAR_FIELD_MODULUS_LE@.last() == 0x30);
                assert(le_val(SCALAR_FIELD_MODULUS_LE@) >= 0x30 * pow2(248));
                lemma2_to64_rest();
                assert(pow2(248) > pow2(64)) by {
                    vstd::arithmetic::power2::lemma_pow2_strictly_increases(64, 248);
                }
                assert(0x30 * pow2(248) > pow2(64)) by (nonlinear_arith)
                    requires
                        pow2(248) > pow2(64),
                ;
                assert(abs <= pow2(64));
                assert(!borrow);
                lemma_le_bytes_of_le_val(out@);
            }
            out
        }
    }

    /// Hash a verification-key blob for content addressing.
    pub fn hash_verification_key(vk_data: &[u8]) -> (r: [u8; 32])
        ensures
            r@ == keccak(vk_data@),
    {
        keccak256(vk_data)
    }
}

/// `a · 64 ≤ b` exactly when `a ≤ b / 64`, for non-negative values.
proof fn lemma_mul_div_le(a: int, b: int, d: int)
    requires
        0 <= a,
        0 <= b,
        0 < d,
    ensures
        (a * d <= b) == (a <= b / d),
{
    vstd::arithmetic::div_mod::lemma_fundamental_div_mod(b, d);
    if a <= b / d {
        assert(a * d <= (b / d) * d) by (nonlinear_arith)
            requires
                a <= b / d,
                d > 0,
        ;
        assert((b / d) * d <= b) by (nonlinear_arith)
            requires
                b == d * (b / d) + b % d,
                b % d >= 0,
        ;
    }
    if a * d <= b && a > b / d {
        assert(a * d >= (b / d + 1) * d) by (nonlinear_arith)
            requires
                a >= b / d + 1,
                d > 0,
        ;
        assert((b / d + 1) * d > b) by (nonlinear_arith)
            requires
                b == d * (b / d) + b % d,
                b % d < d,
        ;
    }
}

/// Prepared verification key for caching: the raw bytes and their hash.
#[derive(Clone)]
pub struct PreparedVerifyingKey {
    /// The verification-key bytes.
    pub vk_data: Vec<u8>,
    /// Their Keccak-256 hash.
    pub vk_hash: [u8; 32],
}

impl PreparedVerifyingKey {
    /// Create from raw verification key bytes.
    pub fn from_bytes(vk_data: &[u8]) -> (r: Result<PreparedVerifyingKey, ZkShieldedError>)
        ensures
            match r {
                Ok(p) => p.vk_data@ == vk_data@ && p.vk_hash@ == keccak(vk_data@),
                Err(_) => false,
            },
    {
        let vk_hash = Groth16Verifier::hash_verification_key(vk_data);
        let mut data: Vec<u8> = Vec::new();
        data.extend_from_slice(vk_data);
        proof {
            assert(data@ =~= vk_data@);
        }
        Ok(PreparedVerifyingKey { vk_data: data, vk_hash })
    }
}

} // verus!
