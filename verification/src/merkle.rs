//! The append-only note-commitment Merkle accumulator.
//!
//! A fixed-depth binary tree whose leaves are inserted left to right; empty
//! slots hold a canonical per-level zero value. The state keeps, per level,
//! the rightmost completed node (the "filled subtree"), which is exactly what
//! the next insertion needs on its left: each insertion costs `depth` hash
//! evaluations along the right frontier.
//!
//! Two insertion modes exist and are frozen when the tree is initialised: the
//! tree either computes each new root itself (`insert`) or trusts a
//! client-supplied root (`insert_with_root`). In computed mode the state
//! invariant ties the stored root to the mathematical root of the inserted
//! leaves.

use vstd::arithmetic::div_mod::{
    lemma_basic_div, lemma_div_denominator, lemma_fundamental_div_mod,
    lemma_fundamental_div_mod_converse,
};
use vstd::arithmetic::power2::{lemma2_to64, lemma_pow2_adds, lemma_pow2_pos, lemma_pow2_unfold};
use vstd::arithmetic::power2::pow2;
use vstd::bits::{lemma_u64_pow2_no_overflow, lemma_u64_shl_is_mul};
use vstd::prelude::*;

use crate::encoding::bytes32_eq;
use crate::errors::ZkShieldedError;
use crate::hash::{hash_pair, hash_pair_spec};

verus! {

/// Zero value for empty leaves.
pub const ZERO_VALUE: [u8; 32] = [
    0x30,
    0x64,
    0x4e,
    0x72,
    0xe1,
    0x31,
    0xa0,
    0x29,
    0xb8,
    0x50,
    0x45,
    0xb6,
    0x81,
    0x81,
    0x58,
    0x5d,
    0x97,
    0x81,
    0x6a,
    0x91,
    0x68,
    0x71,
    0xca,
    0x8d,
    0x94,
    0xa0,
    0x38,
    0x73,
    0x2d,
    0x5c,
    0x96,
    0x0c,
];

/// The canonical empty node at a level: the zero leaf at level 0, and at each
/// higher level the hash of two empty children.
pub open spec fn zero_at(level: nat) -> Seq<u8>
    decreases level,
{
    if level == 0 {
        ZERO_VALUE@
    } else {
        hash_pair_spec(zero_at((level - 1) as nat), zero_at((level - 1) as nat))
    }
}

/// The node at `level` covering leaf slots `[pos·2^level, (pos+1)·2^level)`
/// of a left-filled tree holding `leaves`, empty slots at the zero value.
pub open spec fn subtree_root_spec(leaves: Seq<Seq<u8>>, level: nat, pos: nat) -> Seq<u8>
    decreases level,
{
    if level == 0 {
        if pos < leaves.len() {
            leaves[pos as int]
        } else {
            zero_at(0)
        }
    } else {
        hash_pair_spec(
            subtree_root_spec(leaves, (level - 1) as nat, 2 * pos),
            subtree_root_spec(leaves, (level - 1) as nat, 2 * pos + 1),
        )
    }
}

/// The root of the depth-`depth` tree over `leaves`.
pub open spec fn merkle_root_spec(leaves: Seq<Seq<u8>>, depth: nat) -> Seq<u8> {
    subtree_root_spec(leaves, depth, 0)
}

/// A subtree lying entirely past the filled region is the canonical empty
/// node of its level.
pub proof fn lemma_subtree_all_zero(leaves: Seq<Seq<u8>>, level: nat, pos: nat)
    requires
        pos * pow2(level) >= leaves.len(),
    ensures
        subtree_root_spec(leaves, level, pos) == zero_at(level),
    decreases level,
{
    if level == 0 {
        lemma2_to64();
    } else {
        let lm1 = (level - 1) as nat;
        lemma_pow2_unfold(level);
        assert((2 * pos) * pow2(lm1) == pos * (2 * pow2(lm1))) by (nonlinear_arith);
        assert((2 * pos + 1) * pow2(lm1) >= (2 * pos) * pow2(lm1)) by (nonlinear_arith)
            requires
                pow2(lm1) >= 0,
        ;
        lemma_subtree_all_zero(leaves, lm1, 2 * pos);
        lemma_subtree_all_zero(leaves, lm1, 2 * pos + 1);
    }
}

/// Appending a leaf beyond a fully-covered subtree leaves that subtree's node
/// unchanged.
pub proof fn lemma_subtree_push_frame(leaves: Seq<Seq<u8>>, x: Seq<u8>, level: nat, pos: nat)
    requires
        (pos + 1) * pow2(level) <= leaves.len(),
    ensures
        subtree_root_spec(leaves.push(x), level, pos) == subtree_root_spec(leaves, level, pos),
    decreases level,
{
    if level == 0 {
        lemma2_to64();
        assert(leaves.push(x)[pos as int] == leaves[pos as int]);
    } else {
        let lm1 = (level - 1) as nat;
        lemma_pow2_unfold(level);
        assert((2 * pos + 1 + 1) * pow2(lm1) == (pos + 1) * (2 * pow2(lm1))) by (nonlinear_arith);
        assert((2 * pos + 1) * pow2(lm1) <= (2 * pos + 2) * pow2(lm1)) by (nonlinear_arith)
            requires
                pow2(lm1) >= 0,
        ;
        lemma_subtree_push_frame(leaves, x, lm1, 2 * pos);
        lemma_subtree_push_frame(leaves, x, lm1, 2 * pos + 1);
    }
}

/// Merkle tree state stored per pool.
pub struct MerkleTreeState {
    /// Associated shielded pool.
    pub pool: [u8; 32],
    /// Current root hash.
    pub root: [u8; 32],
    /// Number of leaves inserted.
    pub leaf_count: u64,
    /// Tree depth, fixed at initialisation.
    pub depth: u8,
    /// The rightmost completed node at each level.
    pub filled_subtrees: Vec<[u8; 32]>,
    /// Whether the tree computes roots itself; frozen at initialisation.
    pub computes_root: bool,
    /// The leaves inserted so far, oldest first.
    pub leaves: Ghost<Seq<Seq<u8>>>,
}

impl MerkleTreeState {
    /// In computed mode, the filled-subtree cache is consistent with the
    /// inserted leaves: wherever the frontier has a completed left sibling,
    /// the cache holds that subtree's node.
    pub open spec fn frontier_wf(self) -> bool {
        forall|l: int|
            0 <= l < self.depth && ((self.leaf_count as nat / pow2(l as nat)) % 2 == 1) ==> (
            #[trigger] self.filled_subtrees@[l])@ == subtree_root_spec(
                self.leaves@,
                l as nat,
                (self.leaf_count as nat / pow2(l as nat) - 1) as nat,
            )
    }

    /// The state invariant. In computed mode the stored root is the root of
    /// the inserted leaves under the fixed hash.
    pub open spec fn wf(self) -> bool {
        &&& self.depth < 64
        &&& self.leaf_count as nat <= pow2(self.depth as nat)
        &&& self.leaves@.len() == self.leaf_count
        &&& self.filled_subtrees@.len() == self.depth as int + 1
        &&& (self.computes_root ==> self.root@ == merkle_root_spec(
            self.leaves@,
            self.depth as nat,
        ))
        &&& (self.computes_root ==> self.frontier_wf())
    }

    /// An empty tree of the given depth and insertion mode.
    pub fn new(pool: [u8; 32], depth: u8, computes_root: bool) -> (r: Self)
        requires
            depth < 64,
        ensures
            r.wf(),
            r.pool == pool,
            r.depth == depth,
            r.leaf_count == 0,
            r.computes_root == computes_root,
            r.leaves@ == Seq::<Seq<u8>>::empty(),
            r.root@ == zero_at(depth as nat),
            r.root@ == merkle_root_spec(Seq::<Seq<u8>>::empty(), depth as nat),
            forall|l: int|
                0 <= l <= depth ==> (#[trigger] r.filled_subtrees@[l])@ == zero_at(l as nat),
    {
        let mut tree = MerkleTreeState {
            pool,
            root: [0u8; 32],
            leaf_count: 0,
            depth: 0,
            filled_subtrees: Vec::new(),
            computes_root,
            leaves: Ghost(Seq::empty()),
        };
        tree.initialize(pool, depth, computes_root);
        tree
    }

    /// Initialise an empty tree of the given depth and insertion mode. The
    /// initial root is the canonical empty node at `depth`.
    pub fn initialize(&mut self, pool: [u8; 32], depth: u8, computes_root: bool)
        requires
            depth < 64,
        ensures
            final(self).wf(),
            final(self).pool == pool,
            final(self).depth == depth,
            final(self).leaf_count == 0,
            final(self).computes_root == computes_root,
            final(self).leaves@ == Seq::<Seq<u8>>::empty(),
            final(self).root@ == zero_at(depth as nat),
            final(self).root@ == merkle_root_spec(Seq::<Seq<u8>>::empty(), depth as nat),
            forall|l: int|
                0 <= l <= depth ==> (#[trigger] final(self).filled_subtrees@[l])@ == zero_at(
                    l as nat,
                ),
    {
        self.pool = pool;
        self.depth = depth;
        self.leaf_count = 0;
        self.computes_root = computes_root;
        proof {
            self.leaves@ = Seq::empty();
        }
        let mut current = ZERO_VALUE;
        let mut subtrees: Vec<[u8; 32]> = Vec::new();
        subtrees.push(current);
        let mut l: usize = 0;
        while l < depth as usize
            invariant
                l <= depth,
                current@ == zero_at(l as nat),
                subtrees@.len() == l + 1,
                forall|j: int| 0 <= j <= l ==> (#[trigger] subtrees@[j])@ == zero_at(j as nat),
            decreases depth - l,
        {
            current = hash_pair(&current, &current);
            subtrees.push(current);
            l = l + 1;
        }
        self.filled_subtrees = subtrees;
        self.root = current;
        proof {
            lemma_subtree_all_zero(Seq::<Seq<u8>>::empty(), depth as nat, 0);
            assert forall|l: int| 0 <= l < depth implies (0 as nat / #[trigger] pow2(l as nat)) % 2
                == 0 by {
                lemma_pow2_pos(l as nat);
                vstd::arithmetic::div_mod::lemma_div_of0(pow2(l as nat) as int);
            }
        }
    }

    /// The canonical empty node at a level, computed by hashing upward from
    /// the zero leaf.
    pub fn get_zero_for_level(&self, level: usize) -> (r: [u8; 32])
        ensures
            r@ == zero_at(level as nat),
    {
        let mut zero = ZERO_VALUE;
        let mut l: usize = 0;
        while l < level
            invariant
                l <= level,
                zero@ == zero_at(l as nat),
            decreases level - l,
        {
            zero = hash_pair(&zero, &zero);
            l = l + 1;
        }
        zero
    }

    /// Insert a new leaf, recompute the root along the right frontier, and
    /// return the leaf's 0-based index. A full tree refuses the insertion.
    pub fn insert(&mut self, leaf: [u8; 32]) -> (r: Result<u64, ZkShieldedError>)
        requires
            old(self).wf(),
            old(self).computes_root,
        ensures
            final(self).wf(),
            final(self).computes_root,
            final(self).pool == old(self).pool,
            final(self).depth == old(self).depth,
            match r {
                Ok(ix) => {
                    &&& (old(self).leaf_count as nat) < pow2(old(self).depth as nat)
                    &&& ix == old(self).leaf_count
                    &&& final(self).leaf_count == old(self).leaf_count + 1
                    &&& final(self).leaves@ == old(self).leaves@.push(leaf@)
                    &&& final(self).root@ == merkle_root_spec(
                        old(self).leaves@.push(leaf@),
                        old(self).depth as nat,
                    )
                },
                Err(e) => {
                    &&& e == ZkShieldedError::MerkleTreeFull
                    &&& (old(self).leaf_count as nat) == pow2(old(self).depth as nat)
                    &&& *final(self) == *old(self)
                },
            },
    {
        proof {
            lemma_u64_pow2_no_overflow(self.depth as nat);
            lemma_u64_shl_is_mul(1u64, self.depth as u64);
        }
        let max_leaves = 1u64 << (self.depth as u64);
        if self.leaf_count >= max_leaves {
            return Err(ZkShieldedError::MerkleTreeFull);
        }
        let ghost self0 = *self;
        let leaf_index = self.leaf_count;
        let ghost n = leaf_index as nat;
        let ghost old_leaves = self.leaves@;
        let ghost new_leaves = old_leaves.push(leaf@);
        let ghost d = self.depth as nat;
        let mut current_hash = leaf;
        let mut current_index = leaf_index;
        let depth_now = self.depth;
        let mut level: usize = 0;
        proof {
            lemma2_to64();
            assert(n / pow2(0) == n) by {
                vstd::arithmetic::div_mod::lemma_div_basics(n as int);
            }
            assert(subtree_root_spec(new_leaves, 0, n) == leaf@);
        }
        while level < depth_now as usize
            invariant
                level <= d,
                depth_now == self0.depth,
                *self == (MerkleTreeState {
                    filled_subtrees: self.filled_subtrees,
                    ..self0
                }),
                self0.wf(),
                self0.computes_root,
                d == self0.depth as nat,
                n == self0.leaf_count as nat,
                n < pow2(d),
                old_leaves == self0.leaves@,
                old_leaves.len() == n,
                new_leaves == old_leaves.push(leaf@),
                self.filled_subtrees@.len() == d + 1,
                current_index as nat == n / pow2(level as nat),
                current_hash@ == subtree_root_spec(new_leaves, level as nat, n / pow2(level as nat)),
                forall|l: int|
                    level <= l < d && ((n / pow2(l as nat)) % 2 == 1) ==> (
                    #[trigger] self.filled_subtrees@[l])@ == subtree_root_spec(
                        old_leaves,
                        l as nat,
                        (n / pow2(l as nat) - 1) as nat,
                    ),
                forall|l: int|
                    0 <= l < level && (((n + 1) / pow2(l as nat)) % 2 == 1) ==> (
                    #[trigger] self.filled_subtrees@[l])@ == subtree_root_spec(
                        new_leaves,
                        l as nat,
                        ((n + 1) / pow2(l as nat) - 1) as nat,
                    ),
            decreases d - level,
        {
            let ghost lm = level as nat;
            let ghost m = n / pow2(lm);
            let ghost r_mod = n % pow2(lm);
            proof {
                lemma_pow2_pos(lm);
                lemma_fundamental_div_mod(n as int, pow2(lm) as int);
                lemma_pow2_adds(lm, 1);
                lemma2_to64();
                lemma_div_denominator(n as int, pow2(lm) as int, 2);
                assert(pow2(lm + 1) == pow2(lm) * 2);
                lemma_fundamental_div_mod(m as int, 2);
                // Where the new leaf count sits at this level: appending one
                // leaf either keeps the quotient or completes the block.
                if r_mod + 1 < pow2(lm) {
                    assert((n + 1) as int == m as int * pow2(lm) as int + (r_mod + 1))
                        by (nonlinear_arith)
                        requires
                            n == pow2(lm) * m + r_mod,
                    ;
                    lemma_fundamental_div_mod_converse(
                        (n + 1) as int,
                        pow2(lm) as int,
                        m as int,
                        (r_mod + 1) as int,
                    );
                    assert((n + 1) / pow2(lm) == m);
                } else {
                    assert(r_mod + 1 == pow2(lm));
                    assert((n + 1) as int == (m + 1) as int * pow2(lm) as int + 0)
                        by (nonlinear_arith)
                        requires
                            n == pow2(lm) * m + r_mod,
                            r_mod + 1 == pow2(lm),
                    ;
                    lemma_fundamental_div_mod_converse(
                        (n + 1) as int,
                        pow2(lm) as int,
                        (m + 1) as int,
                        0,
                    );
                    assert((n + 1) / pow2(lm) == m + 1);
                }
            }
            let ghost fs_before = self.filled_subtrees@;
            if current_index % 2 == 0 {
                self.filled_subtrees[level] = current_hash;
                let z = self.get_zero_for_level(level);
                let ghost cur_before = current_hash@;
                current_hash = hash_pair(&current_hash, &z);
                proof {
                    assert(m % 2 == 0);
                    // The right sibling covers slots past the new leaf count.
                    assert((m + 1) * pow2(lm) >= n + 1) by (nonlinear_arith)
                        requires
                            n == pow2(lm) * m + r_mod,
                            r_mod < pow2(lm),
                            pow2(lm) > 0,
                    ;
                    lemma_subtree_all_zero(new_leaves, lm, m + 1);
                    // The new node is the parent of the written node and the
                    // empty sibling.
                    assert(2 * (m / 2) == m);
                    assert(subtree_root_spec(new_leaves, lm + 1, m / 2) == hash_pair_spec(
                        subtree_root_spec(new_leaves, lm, m),
                        subtree_root_spec(new_leaves, lm, m + 1),
                    ));
                    assert(current_hash@ == subtree_root_spec(new_leaves, lm + 1, n / pow2(lm + 1)));
                    // The frontier entry written at this level is the one the
                    // new leaf count calls for, whenever it calls for one.
                    if ((n + 1) / pow2(lm)) % 2 == 1 {
                        assert((n + 1) / pow2(lm) == m + 1);
                        assert(cur_before == subtree_root_spec(
                            new_leaves,
                            lm,
                            ((n + 1) / pow2(lm) - 1) as nat,
                        ));
                    }
                }
            } else {
                let left = self.filled_subtrees[level];
                let ghost cur_before = current_hash@;
                current_hash = hash_pair(&left, &current_hash);
                proof {
                    assert(m % 2 == 1);
                    assert(left@ == subtree_root_spec(old_leaves, lm, (m - 1) as nat));
                    // The completed left sibling is untouched by the append.
                    assert(((m - 1) + 1) * pow2(lm) <= n) by (nonlinear_arith)
                        requires
                            n == pow2(lm) * m + r_mod,
                            r_mod >= 0,
                            pow2(lm) > 0,
                    ;
                    lemma_subtree_push_frame(old_leaves, leaf@, lm, (m - 1) as nat);
                    assert(2 * (m / 2) == m - 1);
                    assert(subtree_root_spec(new_leaves, lm + 1, m / 2) == hash_pair_spec(
                        subtree_root_spec(new_leaves, lm, (m - 1) as nat),
                        subtree_root_spec(new_leaves, lm, m),
                    ));
                    assert(current_hash@ == subtree_root_spec(new_leaves, lm + 1, n / pow2(lm + 1)));
                    // The untouched frontier entry still matches the new leaf
                    // count, whenever that calls for one at this level.
                    if ((n + 1) / pow2(lm)) % 2 == 1 {
                        assert((n + 1) / pow2(lm) == m);
                        assert(self.filled_subtrees@[level as int]@ == subtree_root_spec(
                            new_leaves,
                            lm,
                            ((n + 1) / pow2(lm) - 1) as nat,
                        ));
                    }
                }
            }
            current_index = current_index / 2;
            level = level + 1;
        }
        self.root = current_hash;
        self.leaf_count = self.leaf_count + 1;
        proof {
            self.leaves@ = new_leaves;
            lemma_pow2_pos(d);
            lemma_basic_div(n as int, pow2(d) as int);
            assert(n / pow2(d) == 0);
        }
        Ok(leaf_index)
    }

    /// Insert a new leaf and trust the client-computed root for the resulting
    /// tree: the mode for hosts that cannot evaluate the tree hash. An
    /// adversarial root only bricks the depositor: later proofs against it
    /// self-certify consistency or fail.
    pub fn insert_with_root(&mut self, leaf: [u8; 32], new_root: [u8; 32]) -> (r: Result<
        u64,
        ZkShieldedError,
    >)
        requires
            old(self).wf(),
            !old(self).computes_root,
        ensures
            final(self).wf(),
            final(self).pool == old(self).pool,
            final(self).depth == old(self).depth,
            final(self).computes_root == old(self).computes_root,
            match r {
                Ok(ix) => {
                    &&& (old(self).leaf_count as nat) < pow2(old(self).depth as nat)
                    &&& ix == old(self).leaf_count
                    &&& final(self).leaf_count == old(self).leaf_count + 1
                    &&& final(self).leaves@ == old(self).leaves@.push(leaf@)
                    &&& final(self).root == new_root
                },
                Err(e) => {
                    &&& e == ZkShieldedError::MerkleTreeFull
                    &&& (old(self).leaf_count as nat) == pow2(old(self).depth as nat)
                    &&& *final(self) == *old(self)
                },
            },
    {
        proof {
            lemma_u64_pow2_no_overflow(self.depth as nat);
            lemma_u64_shl_is_mul(1u64, self.depth as u64);
        }
        let max_leaves = 1u64 << (self.depth as u64);
        if self.leaf_count >= max_leaves {
            return Err(ZkShieldedError::MerkleTreeFull);
        }
        let leaf_index = self.leaf_count;
        self.root = new_root;
        self.leaf_count = self.leaf_count + 1;
        proof {
            self.leaves@ = self.leaves@.push(leaf@);
        }
        Ok(leaf_index)
    }
}

/// The node reached by hashing `leaf` up through the first `i` path steps.
pub open spec fn fold_path_spec(
    leaf: Seq<u8>,
    indices: Seq<u8>,
    elements: Seq<[u8; 32]>,
    i: int,
) -> Seq<u8>
    decreases i,
{
    if i <= 0 {
        leaf
    } else {
        let prev = fold_path_spec(leaf, indices, elements, i - 1);
        if indices[i - 1] == 0 {
            hash_pair_spec(prev, elements[i - 1]@)
        } else {
            hash_pair_spec(elements[i - 1]@, prev)
        }
    }
}

/// Helper for generating and checking Merkle membership proofs off-chain.
pub struct MerkleProof {
    /// The leaf whose membership is claimed.
    pub leaf: [u8; 32],
    /// Per level: 0 when the running node is the left child, 1 otherwise.
    pub path_indices: Vec<u8>,
    /// The sibling node at each level.
    pub path_elements: Vec<[u8; 32]>,
}

impl MerkleProof {
    /// Verify the proof against a root: hash the leaf up the path and compare.
    pub fn verify(&self, root: &[u8; 32]) -> (r: bool)
        requires
            self.path_indices@.len() == self.path_elements@.len(),
        ensures
            r == (fold_path_spec(
                self.leaf@,
                self.path_indices@,
                self.path_elements@,
                self.path_elements@.len() as int,
            ) == root@),
    {
        let mut current = self.leaf;
        let mut i: usize = 0;
        while i < self.path_elements.len()
            invariant
                i <= self.path_elements@.len(),
                self.path_indices@.len() == self.path_elements@.len(),
                current@ == fold_path_spec(
                    self.leaf@,
                    self.path_indices@,
                    self.path_elements@,
                    i as int,
                ),
            decreases self.path_elements@.len() - i,
        {
            let sibling = self.path_elements[i];
            if self.path_indices[i] == 0 {
                current = hash_pair(&current, &sibling);
            } else {
                current = hash_pair(&sibling, &current);
            }
            i = i + 1;
        }
        bytes32_eq(&current, root)
    }
}

} // verus!
