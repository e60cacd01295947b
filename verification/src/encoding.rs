//! Byte-level integer encodings.
//!
//! Field elements cross the pool boundary as 32-byte strings, little-endian on
//! the wire and big-endian at the pairing precompile. This module gives those
//! strings a numeric meaning and verifies the byte-wise arithmetic on them.

use vstd::arithmetic::power2::*;
use vstd::prelude::*;

verus! {

/// The value of a byte string read as a little-endian unsigned integer.
pub open spec fn le_val(s: Seq<u8>) -> nat
    decreases s.len(),
{
    if s.len() == 0 {
        0
    } else {
        (le_val(s.drop_last()) + s.last() * pow2(8 * (s.len() - 1) as nat)) as nat
    }
}

/// The value of a byte string read as a big-endian unsigned integer.
pub open spec fn be_val(s: Seq<u8>) -> nat {
    le_val(s.reverse())
}

/// A little-endian value is below `2^(8·len)`.
pub proof fn lemma_le_val_bound(s: Seq<u8>)
    ensures
        le_val(s) < pow2(8 * s.len()),
    decreases s.len(),
{
    if s.len() == 0 {
        lemma_pow2_pos(0);
    } else {
        let n = (s.len() - 1) as nat;
        lemma_le_val_bound(s.drop_last());
        lemma_pow2_adds(8 * n, 8);
        lemma2_to64();
        assert(le_val(s.drop_last()) + s.last() * pow2(8 * n) < 256 * pow2(8 * n))
            by (nonlinear_arith)
            requires
                le_val(s.drop_last()) < pow2(8 * n),
                s.last() <= 255,
                pow2(8 * n) > 0,
        ;
        assert(pow2(8 * s.len()) == pow2(8 * n) * 256);
    }
}

/// Extending a byte string by one byte raises its value by that byte's weight.
pub proof fn lemma_le_val_take_succ(s: Seq<u8>, i: int)
    requires
        0 <= i < s.len(),
    ensures
        le_val(s.take(i + 1)) == le_val(s.take(i)) + s[i] * pow2(8 * i as nat),
{
    let t = s.take(i + 1);
    assert(t.drop_last() =~= s.take(i));
    assert(t.last() == s[i]);
}

/// Trailing zero bytes do not change a little-endian value.
pub proof fn lemma_le_val_zero_tail(s: Seq<u8>, i: int)
    requires
        0 <= i <= s.len(),
        forall|j: int| i <= j < s.len() ==> s[j] == 0,
    ensures
        le_val(s) == le_val(s.take(i)),
    decreases s.len() - i,
{
    if i < s.len() {
        lemma_le_val_take_succ(s, s.len() - 1);
        assert(s.take(s.len() as int) =~= s);
        lemma_le_val_zero_tail(s.take(s.len() - 1), i);
        assert(s.take(s.len() - 1).take(i) =~= s.take(i));
    } else {
        assert(s.take(i) =~= s);
    }
}

/// Reverse the byte order of a 32-byte string (little-endian to big-endian and
/// back; the two conversions are the same permutation).
pub fn le_to_be(bytes: &[u8; 32]) -> (r: [u8; 32])
    ensures
        r@ == bytes@.reverse(),
{
    let mut out = [0u8; 32];
    let mut i: usize = 0;
    while i < 32
        invariant
            i <= 32,
            forall|j: int| 0 <= j < i ==> out@[j] == bytes@[31 - j],
        decreases 32 - i,
    {
        out[i] = bytes[31 - i];
        i = i + 1;
    }
    proof {
        assert(out@ =~= bytes@.reverse());
    }
    out
}

/// Byte-wise schoolbook subtraction `a - b` over 32-byte little-endian
/// strings: the 256-bit difference and the final borrow.
pub fn sub32_le(a: &[u8; 32], b: &[u8; 32]) -> (r: ([u8; 32], bool))
    ensures
        le_val(r.0@) == le_val(a@) - le_val(b@) + (if r.1 {
            pow2(256) as int
        } else {
            0
        }),
        r.1 == (le_val(a@) < le_val(b@)),
{
    let mut out = [0u8; 32];
    let mut borrow: u16 = 0;
    let mut i: usize = 0;
    proof {
        assert(a@.take(0) =~= Seq::<u8>::empty());
        assert(b@.take(0) =~= Seq::<u8>::empty());
        assert(out@.take(0) =~= Seq::<u8>::empty());
    }
    while i < 32
        invariant
            i <= 32,
            borrow == 0 || borrow == 1,
            le_val(out@.take(i as int)) == le_val(a@.take(i as int)) - le_val(b@.take(i as int))
                + borrow * pow2(8 * i as nat),
        decreases 32 - i,
    {
        let ai = a[i] as u16;
        let bi = b[i] as u16 + borrow;
        let ghost borrow0 = borrow as int;
        let ghost out_before = out@;
        if ai >= bi {
            out[i] = (ai - bi) as u8;
            borrow = 0;
        } else {
            out[i] = (ai + 256 - bi) as u8;
            borrow = 1;
        }
        proof {
            let ghost w = pow2(8 * i as nat) as int;
            let ghost borrow1 = borrow as int;
            let ghost obyte = out@[i as int] as int;
            assert(out@.take(i as int) =~= out_before.take(i as int));
            lemma_le_val_take_succ(a@, i as int);
            lemma_le_val_take_succ(b@, i as int);
            lemma_le_val_take_succ(out@, i as int);
            lemma_pow2_adds(8 * i as nat, 8);
            lemma2_to64();
            assert(obyte == a@[i as int] - b@[i as int] - borrow0 + borrow1 * 256);
            assert(obyte * w == a@[i as int] * w - b@[i as int] * w - borrow0 * w + borrow1 * (256
                * w)) by (nonlinear_arith)
                requires
                    obyte == a@[i as int] - b@[i as int] - borrow0 + borrow1 * 256,
            ;
            assert(borrow1 * pow2(8 * (i + 1) as nat) == borrow1 * (256 * w));
        }
        i = i + 1;
    }
    proof {
        assert(a@.take(32) =~= a@);
        assert(b@.take(32) =~= b@);
        assert(out@.take(32) =~= out@);
        lemma_le_val_bound(a@);
        lemma_le_val_bound(b@);
        lemma_le_val_bound(out@);
    }
    (out, borrow != 0)
}

/// Compare two 32-byte strings for equality.
pub fn bytes32_eq(a: &[u8; 32], b: &[u8; 32]) -> (r: bool)
    ensures
        r == (a@ == b@),
{
    let mut i: usize = 0;
    while i < 32
        invariant
            i <= 32,
            forall|j: int| 0 <= j < i ==> a@[j] == b@[j],
        decreases 32 - i,
    {
        if a[i] != b[i] {
            proof {
                assert(a@[i as int] != b@[i as int]);
            }
            return false;
        }
        i = i + 1;
    }
    proof {
        assert(a@ =~= b@);
    }
    true
}

/// Embed a 64-bit value into a 32-byte little-endian string.
pub fn u64_to_le_bytes32(v: u64) -> (r: [u8; 32])
    ensures
        le_val(r@) == v,
{
    let mut out = [0u8; 32];
    let mut x = v;
    let mut i: usize = 0;
    proof {
        assert(out@.take(0) =~= Seq::<u8>::empty());
        lemma2_to64();
        assert(le_val(out@.take(0)) == 0);
        assert(pow2(0) == 1);
        assert(x * pow2(0) == v) by (nonlinear_arith)
            requires
                x == v,
                pow2(0) == 1,
        ;
    }
    while i < 8
        invariant
            i <= 8,
            le_val(out@.take(i as int)) + x * pow2(8 * i as nat) == v,
            forall|j: int| i <= j < 32 ==> out@[j] == 0,
        decreases 8 - i,
    {
        let ghost out_before = out@;
        out[i] = (x % 256) as u8;
        let ghost x0 = x as int;
        let ghost w = pow2(8 * i as nat) as int;
        x = x / 256;
        proof {
            assert(out@.take(i as int) =~= out_before.take(i as int));
            lemma_le_val_take_succ(out@, i as int);
            lemma_pow2_adds(8 * i as nat, 8);
            lemma2_to64();
            assert(x0 == 256 * (x0 / 256) + x0 % 256);
            assert((256 * (x0 / 256) + x0 % 256) * w == (x0 / 256) * (256 * w) + (x0 % 256) * w)
                by (nonlinear_arith);
        }
        i = i + 1;
    }
    proof {
        assert(x == 0) by {
            lemma2_to64_rest();
            if x >= 1 {
                assert(x * pow2(64) >= pow2(64)) by (nonlinear_arith)
                    requires
                        x >= 1,
                        pow2(64) > 0,
                ;
            }
        }
        lemma_le_val_zero_tail(out@, 8);
    }
    out
}

/// The canonical `len`-byte little-endian encoding of a value.
pub open spec fn le_bytes_of(v: nat, len: nat) -> Seq<u8>
    decreases len,
{
    if len == 0 {
        Seq::empty()
    } else {
        le_bytes_of(v, (len - 1) as nat).push(((v / pow2(8 * (len - 1) as nat)) % 256) as u8)
    }
}

/// The encoding's value is the encoded value, reduced mod `2^(8·len)`.
pub proof fn lemma_le_bytes_of_val(v: nat, len: nat)
    ensures
        le_bytes_of(v, len).len() == len,
        le_val(le_bytes_of(v, len)) == v % pow2(8 * len),
    decreases len,
{
    if len == 0 {
        lemma2_to64();
    } else {
        let lm1 = (len - 1) as nat;
        let w = pow2(8 * lm1) as int;
        let vi = v as int;
        lemma_le_bytes_of_val(v, lm1);
        lemma_pow2_adds(8 * lm1, 8);
        lemma2_to64();
        lemma_pow2_pos(8 * lm1);
        vstd::arithmetic::div_mod::lemma_fundamental_div_mod(vi, w);
        vstd::arithmetic::div_mod::lemma_fundamental_div_mod(vi / w, 256);
        vstd::arithmetic::div_mod::lemma_div_denominator(vi, w, 256);
        let b = (vi / w) % 256;
        let q = vi / (w * 256);
        let enc = le_bytes_of(v, len);
        assert(enc.drop_last() =~= le_bytes_of(v, lm1));
        assert(enc.last() == ((v / pow2(8 * lm1)) % 256) as u8);
        assert(w * (256 * q + b) == (w * 256) * q + b * w) by (nonlinear_arith);
        assert(vi == (w * 256) * q + (b * w + vi % w));
        assert(b * w <= 255 * w) by (nonlinear_arith)
            requires
                0 <= b <= 255,
                w > 0,
        ;
        assert(0 <= b * w + vi % w < w * 256) by (nonlinear_arith)
            requires
                0 <= b * w <= 255 * w,
                0 <= vi % w < w,
                w > 0,
        ;
        vstd::arithmetic::div_mod::lemma_fundamental_div_mod_converse(
            vi,
            w * 256,
            q,
            b * w + vi % w,
        );
        assert(pow2(8 * len) == w * 256);
    }
}

/// Equal values have equal encodings: a little-endian reading is injective
/// over strings of one length.
pub proof fn lemma_le_val_injective(s1: Seq<u8>, s2: Seq<u8>)
    requires
        s1.len() == s2.len(),
        le_val(s1) == le_val(s2),
    ensures
        s1 =~= s2,
    decreases s1.len(),
{
    if s1.len() > 0 {
        let n = (s1.len() - 1) as nat;
        let w = pow2(8 * n) as int;
        lemma_le_val_bound(s1.drop_last());
        lemma_le_val_bound(s2.drop_last());
        lemma_pow2_pos(8 * n);
        vstd::arithmetic::div_mod::lemma_fundamental_div_mod_converse(
            le_val(s1) as int,
            w,
            s1.last() as int,
            le_val(s1.drop_last()) as int,
        );
        vstd::arithmetic::div_mod::lemma_fundamental_div_mod_converse(
            le_val(s2) as int,
            w,
            s2.last() as int,
            le_val(s2.drop_last()) as int,
        );
        lemma_le_val_injective(s1.drop_last(), s2.drop_last());
        assert forall|i: int| 0 <= i < s1.len() implies s1[i] == s2[i] by {
            if i < s1.len() - 1 {
                assert(s1.drop_last()[i] == s2.drop_last()[i]);
            }
        }
    }
}

/// Encoding a string's value at its own length gives the string back.
pub proof fn lemma_le_bytes_of_le_val(s: Seq<u8>)
    ensures
        le_bytes_of(le_val(s), s.len()) =~= s,
{
    lemma_le_bytes_of_val(le_val(s), s.len());
    lemma_le_val_bound(s);
    vstd::arithmetic::div_mod::lemma_small_mod(le_val(s), pow2(8 * s.len()));
    lemma_le_val_injective(le_bytes_of(le_val(s), s.len()), s);
}

} // verus!
