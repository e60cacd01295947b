//! Configuration and state of a shielded pool, one per asset class.
//!
//! The pool keeps the current Merkle root together with a ring of up to 100
//! historical roots: a proof may reference any root in this acceptance
//! window, which decouples proof generation from concurrent insertions. The
//! pool also carries the running shielded balance and the identity data the
//! operations check against.

use vstd::prelude::*;

use crate::encoding::bytes32_eq;

verus! {

/// How many historical roots the acceptance window may hold.
pub const MAX_HISTORICAL_ROOTS: u8 = 100;

/// The default Merkle tree depth of a new pool.
pub const DEFAULT_TREE_DEPTH: u8 = 20;

/// The cap on the relayer fee, in basis points.
pub const MAX_RELAYER_FEE_BPS: u16 = 100;

/// The window invariant: the stored historical roots are exactly the last
/// `min(100, n)` roots the pool's operations replaced, oldest first. The
/// trace's first entry, the root of the freshly initialised empty tree, never
/// enters the window: it was current before any operation committed.
pub open spec fn eligible_roots(trace: Seq<Seq<u8>>) -> Seq<Seq<u8>> {
    if trace.len() <= 1 {
        Seq::empty()
    } else {
        trace.subrange(1, trace.len() - 1)
    }
}

pub open spec fn window_of(trace: Seq<Seq<u8>>, hist: Seq<[u8; 32]>) -> bool {
    let eligible = eligible_roots(trace);
    &&& hist.len() == if eligible.len() < 100 {
        eligible.len() as int
    } else {
        100
    }
    &&& forall|i: int| 0 <= i < hist.len() ==> hist[i]@ == eligible[eligible.len() - hist.len() + i]
}

/// Configuration and state of a shielded pool.
pub struct ShieldedPool {
    /// Authority that can update pool settings.
    pub authority: [u8; 32],
    /// Token mint identifier (the system sentinel denotes the native asset).
    pub token_mint: [u8; 32],
    /// Current Merkle tree root.
    pub merkle_root: [u8; 32],
    /// Depth of the Merkle tree, fixed at initialisation.
    pub tree_depth: u8,
    /// Index of the next leaf to insert.
    pub next_leaf_index: u64,
    /// Hash of the verification key for proof validation.
    pub vk_hash: [u8; 32],
    /// Total amount currently shielded in the pool.
    pub total_shielded: u64,
    /// Whether the pool is accepting operations.
    pub is_active: bool,
    /// Historical roots, oldest first, at most 100.
    pub historical_roots: Vec<[u8; 32]>,
    /// Maximum size of the historical-roots window.
    pub max_historical_roots: u8,
    /// Pool creation timestamp.
    pub created_at: i64,
    /// Last transaction timestamp.
    pub last_tx_at: i64,
    /// Relayer fee in basis points (100 = 1%).
    pub relayer_fee_bps: u16,
    /// Relayer identity that receives fees.
    pub relayer: [u8; 32],
    /// Every root the pool has had, oldest first; the last is current.
    pub root_trace: Ghost<Seq<Seq<u8>>>,
    /// Sum of the amounts of all accepted shields.
    pub shielded_in: Ghost<nat>,
    /// Sum of the amounts of all accepted unshields.
    pub unshielded_out: Ghost<nat>,
}

impl ShieldedPool {
    /// The root bookkeeping is sound: the current root ends the trace and the
    /// window holds exactly the most recent past roots.
    pub open spec fn roots_wf(self) -> bool {
        &&& self.root_trace@.len() >= 1
        &&& self.merkle_root@ == self.root_trace@.last()
        &&& self.max_historical_roots == 100
        &&& window_of(self.root_trace@, self.historical_roots@)
    }

    /// The balance accounting is sound: `total_shielded` is exactly what came
    /// in minus what went out.
    pub open spec fn value_wf(self) -> bool {
        &&& self.unshielded_out@ <= self.shielded_in@
        &&& self.shielded_in@ - self.unshielded_out@ <= u64::MAX
        &&& self.total_shielded == self.shielded_in@ - self.unshielded_out@
    }

    /// Whether `root` is acceptable: the current root or any root in the
    /// historical window.
    pub open spec fn root_in_window(self, root: Seq<u8>) -> bool {
        ||| self.merkle_root@ == root
        ||| exists|i: int|
            0 <= i < self.historical_roots@.len() && self.historical_roots@[i]@ == root
    }

    /// A fresh pool: active, empty window, zero balance, created now.
    pub fn new(
        authority: [u8; 32],
        token_mint: [u8; 32],
        vk_hash: [u8; 32],
        tree_depth: u8,
        initial_root: [u8; 32],
        relayer_fee_bps: u16,
        now: i64,
    ) -> (r: Self)
        ensures
            r.roots_wf(),
            r.value_wf(),
            r.authority == authority,
            r.token_mint == token_mint,
            r.vk_hash == vk_hash,
            r.tree_depth == tree_depth,
            r.merkle_root == initial_root,
            r.next_leaf_index == 0,
            r.total_shielded == 0,
            r.is_active,
            r.historical_roots@.len() == 0,
            r.created_at == now,
            r.last_tx_at == now,
            r.relayer_fee_bps == relayer_fee_bps,
            r.relayer == authority,
            r.root_trace@ =~= seq![initial_root@],
            r.shielded_in@ == 0,
            r.unshielded_out@ == 0,
    {
        let ghost trace0: Seq<Seq<u8>> = seq![initial_root@];
        let r = ShieldedPool {
            authority,
            token_mint,
            merkle_root: initial_root,
            tree_depth,
            next_leaf_index: 0,
            vk_hash,
            total_shielded: 0,
            is_active: true,
            historical_roots: Vec::new(),
            max_historical_roots: MAX_HISTORICAL_ROOTS,
            created_at: now,
            last_tx_at: now,
            relayer_fee_bps,
            relayer: authority,
            root_trace: Ghost(trace0),
            shielded_in: Ghost(0),
            unshielded_out: Ghost(0),
        };
        proof {
            assert(eligible_roots(r.root_trace@) =~= Seq::<Seq<u8>>::empty());
        }
        r
    }

    /// Check if a root is valid: the current root or one in the window.
    pub fn is_valid_root(&self, root: &[u8; 32]) -> (r: bool)
        ensures
            r == self.root_in_window(root@),
    {
        if bytes32_eq(&self.merkle_root, root) {
            return true;
        }
        let mut i: usize = 0;
        while i < self.historical_roots.len()
            invariant
                i <= self.historical_roots@.len(),
                forall|j: int| 0 <= j < i ==> self.historical_roots@[j]@ != root@,
            decreases self.historical_roots@.len() - i,
        {
            if bytes32_eq(&self.historical_roots[i], root) {
                return true;
            }
            i = i + 1;
        }
        false
    }

    /// Update the Merkle root, moving the previous root into the window and
    /// evicting the oldest entry when the window is full. The root the pool
    /// was created with is not retained: before the first operation there is
    /// nothing a proof could have been built against.
    pub fn update_root(&mut self, new_root: [u8; 32])
        requires
            old(self).roots_wf(),
            (old(self).next_leaf_index == 0) <==> (old(self).root_trace@.len() == 1),
        ensures
            final(self).roots_wf(),
            final(self).merkle_root == new_root,
            final(self).root_trace@ == old(self).root_trace@.push(new_root@),
            *final(self) == (ShieldedPool {
                merkle_root: final(self).merkle_root,
                historical_roots: final(self).historical_roots,
                root_trace: final(self).root_trace,
                ..*old(self)
            }),
    {
        let ghost old_trace = self.root_trace@;
        let ghost old_hist = self.historical_roots@;
        if self.next_leaf_index > 0 {
            if self.historical_roots.len() >= self.max_historical_roots as usize {
                self.historical_roots.remove(0);
            }
            self.historical_roots.push(self.merkle_root);
        }
        self.merkle_root = new_root;
        proof {
            self.root_trace@ = old_trace.push(new_root@);
            let old_eligible = eligible_roots(old_trace);
            let new_eligible = eligible_roots(self.root_trace@);
            let hist = self.historical_roots@;
            if old(self).next_leaf_index == 0 {
                assert(new_eligible =~= Seq::<Seq<u8>>::empty());
            } else {
                assert(new_eligible =~= old_eligible.push(old_trace.last()));
                assert forall|i: int| 0 <= i < hist.len() implies hist[i]@
                    == new_eligible[new_eligible.len() - hist.len() + i] by {
                    let j = new_eligible.len() - hist.len() + i;
                    if i < hist.len() - 1 {
                        if old_hist.len() >= 100 {
                            assert(hist[i] == old_hist[i + 1]);
                            assert(old_hist[i + 1]@ == old_eligible[old_eligible.len()
                                - old_hist.len() + i + 1]);
                        } else {
                            assert(hist[i] == old_hist[i]);
                            assert(old_hist[i]@ == old_eligible[old_eligible.len() - old_hist.len()
                                + i]);
                        }
                        assert(new_eligible[j] == old_eligible[j]);
                    } else {
                        assert(hist[i] == old(self).merkle_root);
                        assert(new_eligible[new_eligible.len() - 1] == old_trace.last());
                    }
                }
            }
        }
    }
}

/// Every root in the acceptance window was the pool's current root at some
/// prior instant: it appears in the trace before the current root.
pub proof fn lemma_window_roots_are_past_roots(pool: ShieldedPool, i: int)
    requires
        pool.roots_wf(),
        0 <= i < pool.historical_roots@.len(),
    ensures
        exists|t: int|
            0 <= t < pool.root_trace@.len() - 1 && pool.root_trace@[t]
                == pool.historical_roots@[i]@,
{
    let eligible = eligible_roots(pool.root_trace@);
    let hist = pool.historical_roots@;
    let t = 1 + (eligible.len() - hist.len() + i);
    assert(eligible[eligible.len() - hist.len() + i] == pool.root_trace@[t]);
    assert(0 <= t < pool.root_trace@.len() - 1 && pool.root_trace@[t] == hist[i]@);
}

/// A root that differs from the last 101 roots of the trace (the current one
/// and up to 100 windowed ones) is not accepted, however it arose.
pub proof fn lemma_old_root_rejected(pool: ShieldedPool, root: Seq<u8>)
    requires
        pool.roots_wf(),
        forall|t: int|
            0 <= t < pool.root_trace@.len() && t >= pool.root_trace@.len() - 101
                ==> pool.root_trace@[t] != root,
    ensures
        !pool.root_in_window(root),
{
    let trace = pool.root_trace@;
    let eligible = eligible_roots(trace);
    let hist = pool.historical_roots@;
    assert(trace[trace.len() - 1] != root);
    assert(pool.merkle_root@ != root);
    assert forall|i: int| 0 <= i < hist.len() implies hist[i]@ != root by {
        let t = 1 + (eligible.len() - hist.len() + i);
        assert(hist[i]@ == eligible[eligible.len() - hist.len() + i]);
        assert(eligible[eligible.len() - hist.len() + i] == trace[t]);
        assert(t >= trace.len() - 101);
    }
}

/// Pool statistics (read-only view).
#[derive(Clone, Debug)]
pub struct PoolStats {
    /// Total amount currently shielded.
    pub total_shielded: u64,
    /// Number of notes the tree holds.
    pub total_notes: u64,
    /// Whether the pool accepts operations.
    pub is_active: bool,
    /// Depth of the pool's Merkle tree.
    pub tree_depth: u8,
}

impl PoolStats {
    /// The statistics a pool currently shows.
    pub fn from(pool: &ShieldedPool) -> (r: Self)
        ensures
            r.total_shielded == pool.total_shielded,
            r.total_notes == pool.next_leaf_index,
            r.is_active == pool.is_active,
            r.tree_depth == pool.tree_depth,
    {
        PoolStats {
            total_shielded: pool.total_shielded,
            total_notes: pool.next_leaf_index,
            is_active: pool.is_active,
            tree_depth: pool.tree_depth,
        }
    }
}

} // verus!
