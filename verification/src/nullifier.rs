//! The spent-nullifier set: a 16 384-bit bloom filter with k hash functions
//! derived from Keccak-256 by double hashing, plus the authoritative batched
//! list kept per account.
//!
//! Membership is one-sided: a "not in set" answer is authoritative, an "in
//! set" answer is probabilistic and treated as a hard rejection of the spend.

use vstd::prelude::*;
use vstd::wrapping::u64_specs;

use crate::encoding::bytes32_eq;
use crate::errors::ZkShieldedError;
use crate::hash::{keccak, keccak256};

verus! {

/// Whether bit `off` of the word `w` is set.
pub open spec fn word_bit(w: u64, off: u64) -> bool
    recommends
        off < 64,
{
    (w >> off) & 1u64 == 1u64
}

/// Whether bit `idx` of the 16 384-bit filter is set.
pub open spec fn bloom_bit(bloom: Seq<u64>, idx: u64) -> bool
    recommends
        bloom.len() == 256,
        idx < 16384,
{
    word_bit(bloom[idx as int / 64], idx % 64)
}

/// The first 64-bit digest drawn from a nullifier: the low eight bytes of
/// `KECCAK(n)`, read little-endian.
pub open spec fn h1_of(n: Seq<u8>) -> u64 {
    vstd::bytes::spec_u64_from_le_bytes(keccak(n).subrange(0, 8))
}

/// The second 64-bit digest: the low eight bytes of `KECCAK(n ‖ 0x01)`.
pub open spec fn h2_of(n: Seq<u8>) -> u64 {
    vstd::bytes::spec_u64_from_le_bytes(keccak(n.push(1u8)).subrange(0, 8))
}

/// The bit probed by hash function `i` under the double-hashing construction
/// `h_i(n) = h1(n) + i · h2(n)` in wrapping 64-bit arithmetic, reduced mod the
/// filter size.
pub open spec fn bit_index_spec(n: Seq<u8>, i: u64) -> u64 {
    u64_specs::wrapping_add(h1_of(n), u64_specs::wrapping_mul(i, h2_of(n))) % 16384
}

/// Whether all `k` probed bits of `n` are set: the filter's (probabilistic)
/// membership answer.
pub open spec fn bloom_might_contain(bloom: Seq<u64>, n: Seq<u8>, k: u64) -> bool {
    forall|i: u64| i < k ==> bloom_bit(bloom, bit_index_spec(n, i))
}

/// How a filter changes when the first `i` probes of `n` are applied: exactly
/// the probed bits are newly set, and no bit is ever cleared.
pub open spec fn probes_applied(before: Seq<u64>, after: Seq<u64>, n: Seq<u8>, i: u64) -> bool {
    forall|idx: u64|
        idx < 16384 ==> (bloom_bit(after, idx) == (bloom_bit(before, idx) || (exists|j: u64|
            j < i && idx == bit_index_spec(n, j))))
}

/// Nullifier set for preventing double-spending, one per pool.
pub struct NullifierSet {
    /// Associated shielded pool.
    pub pool: [u8; 32],
    /// Number of nullifiers stored.
    pub count: u64,
    /// Number of hash functions for the bloom filter.
    pub num_hash_functions: u8,
    /// Bloom filter bits: false positives possible, false negatives impossible.
    pub bloom_filter: [u64; 256],
    /// The nullifiers added so far, oldest first.
    pub added: Ghost<Seq<Seq<u8>>>,
}

impl NullifierSet {
    /// The set counts exactly the nullifiers added, and each of them still
    /// tests positive.
    pub open spec fn wf(self) -> bool {
        &&& self.count == self.added@.len()
        &&& forall|t: int|
            0 <= t < self.added@.len() ==> bloom_might_contain(
                self.bloom_filter@,
                self.added@[t],
                self.num_hash_functions as u64,
            )
    }

    /// An empty set for a fresh pool, with the default of 7 hash functions.
    pub fn new(pool: [u8; 32]) -> (r: Self)
        ensures
            r.wf(),
            r.pool == pool,
            r.count == 0,
            r.num_hash_functions == 7,
            r.added@ == Seq::<Seq<u8>>::empty(),
            forall|idx: u64| idx < 16384 ==> !bloom_bit(r.bloom_filter@, idx),
    {
        let r = NullifierSet {
            pool,
            count: 0,
            num_hash_functions: 7,
            bloom_filter: [0u64; 256],
            added: Ghost(Seq::empty()),
        };
        proof {
            assert forall|idx: u64| idx < 16384 implies !bloom_bit(r.bloom_filter@, idx) by {
                assert(r.bloom_filter@[idx as int / 64] == 0u64);
                assert((0u64 >> (idx % 16384) % 64) & 1u64 == 0u64) by (bit_vector);
                assert(idx % 64 == (idx % 16384) % 64);
            }
        }
        r
    }

    /// Check if a nullifier might be in the set: `true` if possibly present,
    /// `false` only if definitely absent.
    pub fn might_contain(&self, nullifier: &[u8; 32]) -> (r: bool)
        ensures
            r == bloom_might_contain(
                self.bloom_filter@,
                nullifier@,
                self.num_hash_functions as u64,
            ),
    {
        let k = self.num_hash_functions as u64;
        let mut i: u64 = 0;
        while i < k
            invariant
                i <= k,
                k == self.num_hash_functions as u64,
                forall|j: u64| j < i ==> bloom_bit(self.bloom_filter@, bit_index_spec(nullifier@, j)),
            decreases k - i,
        {
            let idx = get_bit_index(nullifier, i);
            let word_index = (idx / 64) as usize;
            let bit_offset = idx % 64;
            let word = self.bloom_filter[word_index];
            proof {
                vstd::arithmetic::div_mod::lemma_fundamental_div_mod(idx as int, 64);
                assert(word == self.bloom_filter@[idx as int / 64]);
            }
            if (word >> bit_offset) & 1u64 == 0u64 {
                proof {
                    assert(((word >> bit_offset) & 1u64 == 0u64) ==> !((word >> bit_offset) & 1u64
                        == 1u64)) by (bit_vector);
                    assert(!bloom_bit(self.bloom_filter@, bit_index_spec(nullifier@, i)));
                    assert(!bloom_might_contain(
                        self.bloom_filter@,
                        nullifier@,
                        self.num_hash_functions as u64,
                    ));
                }
                return false;
            }
            proof {
                assert((word >> bit_offset) & 1u64 == 1u64) by (bit_vector)
                    requires
                        (word >> bit_offset) & 1u64 != 0u64,
                ;
                assert(bloom_bit(self.bloom_filter@, bit_index_spec(nullifier@, i)));
            }
            i = i + 1;
        }
        true
    }

    /// Add a nullifier: set all `k` probed bits and count it. Existing bits
    /// are never cleared, so everything contained stays contained.
    pub fn add(&mut self, nullifier: &[u8; 32])
        requires
            old(self).count < u64::MAX,
        ensures
            final(self).pool == old(self).pool,
            final(self).num_hash_functions == old(self).num_hash_functions,
            final(self).count == old(self).count + 1,
            final(self).added@ == old(self).added@.push(nullifier@),
            probes_applied(
                old(self).bloom_filter@,
                final(self).bloom_filter@,
                nullifier@,
                old(self).num_hash_functions as u64,
            ),
            bloom_might_contain(
                final(self).bloom_filter@,
                nullifier@,
                final(self).num_hash_functions as u64,
            ),
            old(self).wf() ==> final(self).wf(),
    {
        let ghost orig = *self;
        let k = self.num_hash_functions as u64;
        let mut i: u64 = 0;
        proof {
            assert(probes_applied(orig.bloom_filter@, self.bloom_filter@, nullifier@, 0)) by {
                assert forall|idx: u64| idx < 16384 implies (bloom_bit(self.bloom_filter@, idx) == (
                bloom_bit(orig.bloom_filter@, idx) || (exists|j: u64|
                    j < 0 && idx == bit_index_spec(nullifier@, j)))) by {
                    assert(!(exists|j: u64| j < 0 && idx == bit_index_spec(nullifier@, j)));
                }
            }
        }
        while i < k
            invariant
                i <= k,
                k == orig.num_hash_functions as u64,
                self.pool == orig.pool,
                self.count == orig.count,
                self.num_hash_functions == orig.num_hash_functions,
                self.added == orig.added,
                probes_applied(orig.bloom_filter@, self.bloom_filter@, nullifier@, i),
            decreases k - i,
        {
            let idx = get_bit_index(nullifier, i);
            let word_index = (idx / 64) as usize;
            let bit_offset = idx % 64;
            let ghost before = self.bloom_filter@;
            let word = self.bloom_filter[word_index];
            self.bloom_filter[word_index] = word | (1u64 << bit_offset);
            proof {
                vstd::arithmetic::div_mod::lemma_fundamental_div_mod(idx as int, 64);
                assert(self.bloom_filter@ =~= before.update(
                    idx as int / 64,
                    before[idx as int / 64] | (1u64 << (idx % 64)),
                ));
                lemma_probe_step(
                    orig.bloom_filter@,
                    before,
                    self.bloom_filter@,
                    nullifier@,
                    i,
                    idx,
                );
            }
            i = i + 1;
        }
        self.count = self.count + 1;
        proof {
            self.added@ = orig.added@.push(nullifier@);
        }
        proof {
            lemma_probes_contained(orig.bloom_filter@, self.bloom_filter@, nullifier@, k);
            lemma_probes_monotone(orig.bloom_filter@, self.bloom_filter@, nullifier@, k);
            if orig.wf() {
                assert forall|t: int| 0 <= t < self.added@.len() implies bloom_might_contain(
                    self.bloom_filter@,
                    self.added@[t],
                    self.num_hash_functions as u64,
                ) by {
                    if t < orig.added@.len() {
                        lemma_might_contain_monotone(
                            orig.bloom_filter@,
                            self.bloom_filter@,
                            orig.added@[t],
                            self.num_hash_functions as u64,
                        );
                    }
                }
            }
        }
    }
}

/// Setting one bit of a word leaves every other bit as it was.
proof fn lemma_word_bit_or(w: u64, off: u64, o: u64)
    by (bit_vector)
    requires
        off < 64,
        o < 64,
    ensures
        word_bit(w | (1u64 << off), o) == (word_bit(w, o) || o == off),
{
}

/// A probe set grows monotonically with the hash-function bound.
proof fn lemma_exists_extend(n: Seq<u8>, idx: u64, i: u64)
    requires
        idx != bit_index_spec(n, i),
    ensures
        (exists|j: u64| j < i + 1 && idx == bit_index_spec(n, j)) == (exists|j: u64|
            j < i && idx == bit_index_spec(n, j)),
{
    if exists|j: u64| j < i + 1 && idx == bit_index_spec(n, j) {
        let j = choose|j: u64| j < i + 1 && idx == bit_index_spec(n, j);
        assert(j != i);
        assert(j < i && idx == bit_index_spec(n, j));
    }
}

/// Applying one more probe of `n` to a filter sets exactly that probe's bit.
proof fn lemma_probe_step(
    base: Seq<u64>,
    before: Seq<u64>,
    after: Seq<u64>,
    n: Seq<u8>,
    i: u64,
    idx: u64,
)
    requires
        i < u64::MAX,
        before.len() == 256,
        idx == bit_index_spec(n, i),
        after == before.update(idx as int / 64, before[idx as int / 64] | (1u64 << (idx % 64))),
        probes_applied(base, before, n, i),
    ensures
        probes_applied(base, after, n, (i + 1) as u64),
{
    vstd::arithmetic::div_mod::lemma_fundamental_div_mod(idx as int, 64);
    assert(idx < 16384);
    assert forall|idx2: u64| idx2 < 16384 implies (bloom_bit(after, idx2) == (bloom_bit(base, idx2)
        || (exists|j: u64| j < i + 1 && idx2 == bit_index_spec(n, j)))) by {
        vstd::arithmetic::div_mod::lemma_fundamental_div_mod(idx2 as int, 64);
        lemma_word_bit_or(before[idx as int / 64], idx % 64, idx2 % 64);
        assert(bloom_bit(before, idx2) == (bloom_bit(base, idx2) || (exists|j: u64|
            j < i && idx2 == bit_index_spec(n, j))));
        if idx2 as int / 64 == idx as int / 64 {
            assert(after[idx2 as int / 64] == (before[idx as int / 64] | (1u64 << (idx % 64))));
            if idx2 % 64 == idx % 64 {
                assert(idx2 == idx);
                assert(word_bit(after[idx2 as int / 64], idx2 % 64));
                assert(bloom_bit(after, idx2));
                assert(i < i + 1 && idx2 == bit_index_spec(n, i));
                assert(exists|j: u64| j < i + 1 && idx2 == bit_index_spec(n, j));
            } else {
                assert(bloom_bit(after, idx2) == bloom_bit(before, idx2));
                assert(idx2 != idx);
                lemma_exists_extend(n, idx2, i);
            }
        } else {
            assert(after[idx2 as int / 64] == before[idx2 as int / 64]);
            assert(bloom_bit(after, idx2) == bloom_bit(before, idx2));
            assert(idx2 != idx);
            lemma_exists_extend(n, idx2, i);
        }
    }
}

/// After all `k` probes of `n` are applied, the filter answers positive for `n`.
proof fn lemma_probes_contained(base: Seq<u64>, cur: Seq<u64>, n: Seq<u8>, k: u64)
    requires
        probes_applied(base, cur, n, k),
    ensures
        bloom_might_contain(cur, n, k),
{
    assert forall|j: u64| j < k implies bloom_bit(cur, bit_index_spec(n, j)) by {
        let b = bit_index_spec(n, j);
        assert(b < 16384);
        assert(j < k && b == bit_index_spec(n, j));
        assert(exists|j2: u64| j2 < k && b == bit_index_spec(n, j2));
        assert(bloom_bit(cur, b) == (bloom_bit(base, b) || (exists|j2: u64|
            j2 < k && b == bit_index_spec(n, j2))));
    }
}

/// Applying probes never clears a bit.
pub proof fn lemma_probes_monotone(base: Seq<u64>, cur: Seq<u64>, n: Seq<u8>, k: u64)
    requires
        probes_applied(base, cur, n, k),
    ensures
        forall|idx: u64| idx < 16384 ==> (bloom_bit(base, idx) ==> bloom_bit(cur, idx)),
{
    assert forall|idx: u64| idx < 16384 && bloom_bit(base, idx) implies bloom_bit(cur, idx) by {
        assert(bloom_bit(cur, idx) == (bloom_bit(base, idx) || (exists|j: u64|
            j < k && idx == bit_index_spec(n, j))));
    }
}

/// A filter that has only gained bits keeps every positive answer (half of
/// the one-sidedness guarantee: members never start testing negative).
pub proof fn lemma_might_contain_monotone(b1: Seq<u64>, b2: Seq<u64>, n: Seq<u8>, k: u64)
    requires
        forall|idx: u64| idx < 16384 ==> (bloom_bit(b1, idx) ==> bloom_bit(b2, idx)),
        bloom_might_contain(b1, n, k),
    ensures
        bloom_might_contain(b2, n, k),
{
    assert forall|i: u64| i < k implies bloom_bit(b2, bit_index_spec(n, i)) by {
        assert(bloom_bit(b1, bit_index_spec(n, i)));
        assert(bit_index_spec(n, i) < 16384);
    }
}

/// Every nullifier ever added to a well-formed set still tests positive,
/// however many additions followed it.
pub proof fn lemma_added_always_contained(ns: NullifierSet, t: int)
    requires
        ns.wf(),
        0 <= t < ns.added@.len(),
    ensures
        bloom_might_contain(ns.bloom_filter@, ns.added@[t], ns.num_hash_functions as u64),
{
}

/// Compute the filter bit probed by hash function `hash_index` for a
/// nullifier, by the double-hashing construction over Keccak-256.
fn get_bit_index(nullifier: &[u8; 32], hash_index: u64) -> (r: u64)
    ensures
        r == bit_index_spec(nullifier@, hash_index),
        r < 16384,
{
    let d1 = keccak256(nullifier.as_slice());
    let h1 = vstd::bytes::u64_from_le_bytes(&d1[0..8]);
    let mut buf: Vec<u8> = Vec::new();
    buf.extend_from_slice(nullifier.as_slice());
    buf.push(1u8);
    proof {
        assert(buf@ =~= nullifier@.push(1u8));
    }
    let d2 = keccak256(buf.as_slice());
    let h2 = vstd::bytes::u64_from_le_bytes(&d2[0..8]);
    let combined = h1.wrapping_add(hash_index.wrapping_mul(h2));
    combined % 16384
}

/// Separate account for storing the actual nullifiers, batched to respect
/// account size limits; the authoritative complement of the bloom filter.
pub struct NullifierBatch {
    /// Associated nullifier set.
    pub nullifier_set: [u8; 32],
    /// Batch index.
    pub batch_index: u64,
    /// Nullifiers in this batch.
    pub nullifiers: Vec<[u8; 32]>,
}

impl NullifierBatch {
    /// Check if a nullifier exists in this batch.
    pub fn contains(&self, nullifier: &[u8; 32]) -> (r: bool)
        ensures
            r == (exists|t: int|
                0 <= t < self.nullifiers@.len() && self.nullifiers@[t]@ == nullifier@),
    {
        let mut t: usize = 0;
        while t < self.nullifiers.len()
            invariant
                t <= self.nullifiers@.len(),
                forall|u: int| 0 <= u < t ==> self.nullifiers@[u]@ != nullifier@,
            decreases self.nullifiers@.len() - t,
        {
            if bytes32_eq(&self.nullifiers[t], nullifier) {
                return true;
            }
            t = t + 1;
        }
        false
    }

    /// Add a nullifier to this batch; a full batch refuses it.
    pub fn add(&mut self, nullifier: [u8; 32]) -> (r: Result<(), ZkShieldedError>)
        ensures
            match r {
                Ok(()) => old(self).nullifiers@.len() < 300 && final(self).nullifiers@ == old(
                    self,
                ).nullifiers@.push(nullifier),
                Err(e) => old(self).nullifiers@.len() >= 300 && e
                    == ZkShieldedError::MerkleTreeFull && *final(self) == *old(self),
            },
            final(self).nullifier_set == old(self).nullifier_set,
            final(self).batch_index == old(self).batch_index,
    {
        if self.nullifiers.len() >= 300 {
            return Err(ZkShieldedError::MerkleTreeFull);
        }
        self.nullifiers.push(nullifier);
        Ok(())
    }
}

} // verus!
