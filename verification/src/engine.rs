//! The per-pool state machine: the four value-flow operations and the admin
//! rotation, with the invariants they preserve.
//!
//! Every operation checks its preconditions in a fixed order and mutates
//! nothing when any of them fails; on acceptance it commits nullifiers,
//! commitments, root and balance together and returns the event the host
//! emits. The transparent token legs and the account plumbing live with the
//! host: the engine receives plain values and the verification-key bytes and
//! hands back plain values.

use vstd::arithmetic::power2::pow2;
use vstd::bits::{lemma_u64_pow2_no_overflow, lemma_u64_shl_is_mul};
use vstd::prelude::*;

use crate::encoding::bytes32_eq;
use crate::errors::ZkShieldedError;
use crate::groth16::{groth16_verify_spec, transfer_public_inputs, Groth16Proof, Groth16Verifier};
use crate::hash::keccak;
use crate::merkle::{merkle_root_spec, MerkleTreeState};
use crate::nullifier::{
    bloom_bit, bloom_might_contain, lemma_might_contain_monotone, lemma_probes_monotone,
    NullifierSet,
};
use crate::pool::{lemma_old_root_rejected, ShieldedPool};

verus! {

/// Event emitted when tokens are shielded.
#[derive(Clone, Debug)]
pub struct ShieldEvent {
    /// The pool operated on.
    pub pool: [u8; 32],
    /// The depositor debited by the transparent leg.
    pub depositor: [u8; 32],
    /// The amount shielded.
    pub amount: u64,
    /// The note commitment appended.
    pub commitment: [u8; 32],
    /// The index the commitment was inserted at.
    pub leaf_index: u64,
    /// The Merkle root after the insertion.
    pub new_root: [u8; 32],
    /// When the operation committed.
    pub timestamp: i64,
}

/// Event emitted on a shielded transfer.
#[derive(Clone, Debug)]
pub struct TransferEvent {
    /// The pool operated on.
    pub pool: [u8; 32],
    /// The first spent note's nullifier.
    pub nullifier_1: [u8; 32],
    /// The second spent note's nullifier.
    pub nullifier_2: [u8; 32],
    /// The first output commitment.
    pub output_commitment_1: [u8; 32],
    /// The second output commitment.
    pub output_commitment_2: [u8; 32],
    /// Index of the first output commitment.
    pub leaf_index_1: u64,
    /// Index of the second output commitment.
    pub leaf_index_2: u64,
    /// The Merkle root after both insertions.
    pub new_root: [u8; 32],
    /// When the operation committed.
    pub timestamp: i64,
}

/// Event emitted when tokens are unshielded.
#[derive(Clone, Debug)]
pub struct UnshieldEvent {
    /// The pool operated on.
    pub pool: [u8; 32],
    /// The transparent recipient credited by the token leg.
    pub recipient: [u8; 32],
    /// The amount unshielded.
    pub amount: u64,
    /// The first spent note's nullifier.
    pub nullifier_1: [u8; 32],
    /// The second spent note's nullifier.
    pub nullifier_2: [u8; 32],
    /// The change commitment (the zero sentinel when there is no change).
    pub change_commitment: [u8; 32],
    /// Where the change note was inserted, if one was.
    pub change_leaf_index: Option<u64>,
    /// The Merkle root after the operation.
    pub new_root: [u8; 32],
    /// When the operation committed.
    pub timestamp: i64,
}

/// Event emitted on a relayer transfer.
#[derive(Clone, Debug)]
pub struct RelayerTransferEvent {
    /// The pool operated on.
    pub pool: [u8; 32],
    /// The relayer that submitted the operation.
    pub relayer: [u8; 32],
    /// The first spent note's nullifier.
    pub nullifier_1: [u8; 32],
    /// The second spent note's nullifier.
    pub nullifier_2: [u8; 32],
    /// The first output commitment.
    pub output_commitment_1: [u8; 32],
    /// The second output commitment.
    pub output_commitment_2: [u8; 32],
    /// The relayer-fee output commitment.
    pub output_commitment_relayer_fee: [u8; 32],
    /// The indices of the three output commitments, in insertion order.
    pub leaf_indices: [u64; 3],
    /// The Merkle root after the three insertions.
    pub new_root: [u8; 32],
    /// When the operation committed.
    pub timestamp: i64,
}

/// Event emitted when the verification key is rotated.
#[derive(Clone, Debug)]
pub struct VKUpdateEvent {
    /// The pool operated on.
    pub pool: [u8; 32],
    /// The hash the pool held before.
    pub old_vk_hash: [u8; 32],
    /// The hash the pool holds now.
    pub new_vk_hash: [u8; 32],
    /// The authority that rotated the key.
    pub authority: [u8; 32],
    /// When the rotation committed.
    pub timestamp: i64,
}

/// Whether a commitment is the zero sentinel (no note).
pub open spec fn is_zero_commitment(c: Seq<u8>) -> bool {
    forall|i: int| 0 <= i < 32 ==> c[i] == 0
}

/// One shielded pool with its Merkle accumulator and nullifier set, as one
/// owned value; the host keys each piece by `pool_id`.
pub struct ShieldedEngine {
    /// The pool account's identity, carried into events.
    pub pool_id: [u8; 32],
    /// Pool configuration and balance.
    pub pool: ShieldedPool,
    /// The note-commitment accumulator.
    pub tree: MerkleTreeState,
    /// The spent-nullifier set.
    pub nullifiers: NullifierSet,
}

impl ShieldedEngine {
    /// The cross-component invariant: the pool mirrors the tree (its root is
    /// the root of the inserted leaves and `next_leaf_index` the leaf count),
    /// the balance accounting and root window are sound, and the nullifier
    /// set still contains everything ever added.
    pub open spec fn wf(self) -> bool {
        &&& self.pool.roots_wf()
        &&& self.pool.value_wf()
        &&& self.tree.wf()
        &&& self.tree.computes_root
        &&& self.pool.next_leaf_index == self.tree.leaf_count
        &&& self.pool.merkle_root == self.tree.root
        &&& self.pool.tree_depth == self.tree.depth
        &&& self.nullifiers.wf()
        &&& self.tree.pool == self.pool_id
        &&& self.nullifiers.pool == self.pool_id
        &&& (self.pool.next_leaf_index == 0) <==> (self.pool.root_trace@.len() == 1)
        &&& self.pool.total_shielded > 0 ==> self.pool.next_leaf_index > 0
    }

    /// The configuration no value-flow operation may change.
    pub open spec fn same_config(pre: ShieldedEngine, post: ShieldedEngine) -> bool {
        &&& post.pool_id == pre.pool_id
        &&& post.pool.authority == pre.pool.authority
        &&& post.pool.token_mint == pre.pool.token_mint
        &&& post.pool.tree_depth == pre.pool.tree_depth
        &&& post.pool.is_active == pre.pool.is_active
        &&& post.pool.relayer == pre.pool.relayer
        &&& post.pool.relayer_fee_bps == pre.pool.relayer_fee_bps
        &&& post.pool.created_at == pre.pool.created_at
        &&& post.pool.max_historical_roots == pre.pool.max_historical_roots
        &&& post.tree.depth == pre.tree.depth
        &&& post.tree.pool == pre.tree.pool
        &&& post.tree.computes_root == pre.tree.computes_root
        &&& post.nullifiers.pool == pre.nullifiers.pool
        &&& post.nullifiers.num_hash_functions == pre.nullifiers.num_hash_functions
    }

    /// No bloom bit is ever cleared by an accepted operation.
    pub open spec fn bits_grow(pre: ShieldedEngine, post: ShieldedEngine) -> bool {
        forall|idx: u64|
            idx < 16384 ==> (bloom_bit(pre.nullifiers.bloom_filter@, idx) ==> bloom_bit(
                post.nullifiers.bloom_filter@,
                idx,
            ))
    }

    /// The prologue every proof-carrying spend shares, in check order: the
    /// pool accepts operations, the referenced root is in the window, neither
    /// nullifier was seen, and the VK bytes hash to the pool's `vk_hash`.
    pub open spec fn spend_prologue_error(
        self,
        root: [u8; 32],
        n1: [u8; 32],
        n2: [u8; 32],
        vk_data: Seq<u8>,
    ) -> Option<ZkShieldedError> {
        let k = self.nullifiers.num_hash_functions as u64;
        if !self.pool.is_active {
            Some(ZkShieldedError::PoolNotActive)
        } else if !self.pool.root_in_window(root@) {
            Some(ZkShieldedError::InvalidMerkleRoot)
        } else if bloom_might_contain(self.nullifiers.bloom_filter@, n1@, k) {
            Some(ZkShieldedError::NullifierAlreadySpent)
        } else if bloom_might_contain(self.nullifiers.bloom_filter@, n2@, k) {
            Some(ZkShieldedError::NullifierAlreadySpent)
        } else if keccak(vk_data) != self.pool.vk_hash@ {
            Some(ZkShieldedError::InvalidVerificationKey)
        } else {
            None
        }
    }

    /// What `shield` decides, in check order.
    pub open spec fn shield_result(self, amount: u64) -> Result<(), ZkShieldedError> {
        if !self.pool.is_active {
            Err(ZkShieldedError::PoolNotActive)
        } else if amount == 0 {
            Err(ZkShieldedError::InvalidAmount)
        } else if self.pool.total_shielded + amount > u64::MAX {
            Err(ZkShieldedError::ArithmeticOverflow)
        } else if self.tree.leaf_count as nat >= pow2(self.tree.depth as nat) {
            Err(ZkShieldedError::MerkleTreeFull)
        } else {
            Ok(())
        }
    }

    /// What `transfer` decides, in check order.
    pub open spec fn transfer_result(
        self,
        pf: Groth16Proof,
        n1: [u8; 32],
        n2: [u8; 32],
        c1: [u8; 32],
        c2: [u8; 32],
        root: [u8; 32],
        vk_data: Seq<u8>,
    ) -> Result<(), ZkShieldedError> {
        match self.spend_prologue_error(root, n1, n2, vk_data) {
            Some(e) => Err(e),
            None => match groth16_verify_spec(
                pf,
                transfer_public_inputs(root@, n1@, n2@, c1@, c2@, 0, self.pool.token_mint@),
                vk_data,
            ) {
                Err(e) => Err(e),
                Ok(false) => Err(ZkShieldedError::InvalidProof),
                Ok(true) => {
                    if self.tree.leaf_count as nat + 2 > pow2(self.tree.depth as nat) {
                        Err(ZkShieldedError::MerkleTreeFull)
                    } else {
                        Ok(())
                    }
                },
            },
        }
    }

    /// What `unshield` decides, in check order. The replay check precedes
    /// the balance check: a spent pair must surface as `NullifierAlreadySpent`
    /// even on a drained pool.
    pub open spec fn unshield_result(
        self,
        pf: Groth16Proof,
        n1: [u8; 32],
        n2: [u8; 32],
        c1: [u8; 32],
        c2: [u8; 32],
        root: [u8; 32],
        amount: u64,
        vk_data: Seq<u8>,
    ) -> Result<(), ZkShieldedError> {
        if !self.pool.is_active {
            Err(ZkShieldedError::PoolNotActive)
        } else if !self.pool.root_in_window(root@) {
            Err(ZkShieldedError::InvalidMerkleRoot)
        } else if amount == 0 {
            Err(ZkShieldedError::InvalidAmount)
        } else if bloom_might_contain(
            self.nullifiers.bloom_filter@,
            n1@,
            self.nullifiers.num_hash_functions as u64,
        ) {
            Err(ZkShieldedError::NullifierAlreadySpent)
        } else if bloom_might_contain(
            self.nullifiers.bloom_filter@,
            n2@,
            self.nullifiers.num_hash_functions as u64,
        ) {
            Err(ZkShieldedError::NullifierAlreadySpent)
        } else if self.pool.total_shielded < amount {
            Err(ZkShieldedError::InsufficientBalance)
        } else if keccak(vk_data) != self.pool.vk_hash@ {
            Err(ZkShieldedError::InvalidVerificationKey)
        } else {
            match groth16_verify_spec(
                pf,
                transfer_public_inputs(
                    root@,
                    n1@,
                    n2@,
                    c1@,
                    c2@,
                    (-(amount as i64)) as i64,
                    self.pool.token_mint@,
                ),
                vk_data,
            ) {
                Err(e) => Err(e),
                Ok(false) => Err(ZkShieldedError::InvalidProof),
                Ok(true) => {
                    if !is_zero_commitment(c1@) && self.tree.leaf_count as nat + 1 > pow2(
                        self.tree.depth as nat,
                    ) {
                        Err(ZkShieldedError::MerkleTreeFull)
                    } else {
                        Ok(())
                    }
                },
            }
        }
    }

    /// What `transfer_via_relayer` decides, in check order: the submitter
    /// gate comes before everything the proof touches.
    pub open spec fn relayer_transfer_result(
        self,
        submitter: [u8; 32],
        pf: Groth16Proof,
        n1: [u8; 32],
        n2: [u8; 32],
        c1: [u8; 32],
        c2: [u8; 32],
        c_fee: [u8; 32],
        root: [u8; 32],
        vk_data: Seq<u8>,
    ) -> Result<(), ZkShieldedError> {
        if submitter != self.pool.relayer {
            Err(ZkShieldedError::Unauthorized)
        } else {
            match self.spend_prologue_error(root, n1, n2, vk_data) {
                Some(e) => Err(e),
                None => match groth16_verify_spec(
                    pf,
                    transfer_public_inputs(root@, n1@, n2@, c1@, c2@, 0, self.pool.token_mint@),
                    vk_data,
                ) {
                    Err(e) => Err(e),
                    Ok(false) => Err(ZkShieldedError::InvalidProof),
                    Ok(true) => {
                        if self.tree.leaf_count as nat + 3 > pow2(self.tree.depth as nat) {
                            Err(ZkShieldedError::MerkleTreeFull)
                        } else {
                            Ok(())
                        }
                    },
                },
            }
        }
    }

    /// How an accepted spend rewrites the shared state: both nullifiers are
    /// recorded and stay recorded, the new leaves are appended, and the pool
    /// mirrors the tree. The balance clauses differ per operation and are
    /// stated by each relation.
    pub open spec fn spend_commit(
        pre: ShieldedEngine,
        post: ShieldedEngine,
        n1: [u8; 32],
        n2: [u8; 32],
        new_leaves: Seq<Seq<u8>>,
        now: i64,
    ) -> bool {
        &&& post.tree.leaves@ == pre.tree.leaves@ + new_leaves
        &&& post.tree.leaf_count == pre.tree.leaf_count + new_leaves.len()
        &&& post.pool.next_leaf_index == post.tree.leaf_count
        &&& post.pool.merkle_root == post.tree.root
        &&& post.pool.merkle_root@ == merkle_root_spec(post.tree.leaves@, pre.tree.depth as nat)
        &&& post.pool.root_trace@ == pre.pool.root_trace@.push(post.pool.merkle_root@)
        &&& post.pool.vk_hash == pre.pool.vk_hash
        &&& post.pool.last_tx_at == now
        &&& post.nullifiers.count == pre.nullifiers.count + 2
        &&& post.nullifiers.added@ == pre.nullifiers.added@.push(n1@).push(n2@)
        &&& Self::bits_grow(pre, post)
        &&& bloom_might_contain(
            post.nullifiers.bloom_filter@,
            n1@,
            post.nullifiers.num_hash_functions as u64,
        )
        &&& bloom_might_contain(
            post.nullifiers.bloom_filter@,
            n2@,
            post.nullifiers.num_hash_functions as u64,
        )
        &&& Self::same_config(pre, post)
    }

    /// The full contract of `shield`.
    pub open spec fn shield_rel(
        pre: ShieldedEngine,
        post: ShieldedEngine,
        depositor: [u8; 32],
        amount: u64,
        commitment: [u8; 32],
        now: i64,
        r: Result<ShieldEvent, ZkShieldedError>,
    ) -> bool {
        match r {
            Err(e) => post == pre && pre.shield_result(amount) == Err::<(), ZkShieldedError>(e),
            Ok(ev) => {
                &&& pre.shield_result(amount) == Ok::<(), ZkShieldedError>(())
                &&& post.tree.leaves@ == pre.tree.leaves@.push(commitment@)
                &&& post.tree.leaf_count == pre.tree.leaf_count + 1
                &&& post.pool.next_leaf_index == post.tree.leaf_count
                &&& post.pool.merkle_root == post.tree.root
                &&& post.pool.merkle_root@ == merkle_root_spec(
                    post.tree.leaves@,
                    pre.tree.depth as nat,
                )
                &&& post.pool.root_trace@ == pre.pool.root_trace@.push(post.pool.merkle_root@)
                &&& post.pool.total_shielded == pre.pool.total_shielded + amount
                &&& post.pool.shielded_in@ == pre.pool.shielded_in@ + amount
                &&& post.pool.unshielded_out@ == pre.pool.unshielded_out@
                &&& post.pool.vk_hash == pre.pool.vk_hash
                &&& post.pool.last_tx_at == now
                &&& post.nullifiers == pre.nullifiers
                &&& Self::same_config(pre, post)
                &&& ev == (ShieldEvent {
                    pool: pre.pool_id,
                    depositor,
                    amount,
                    commitment,
                    leaf_index: pre.tree.leaf_count,
                    new_root: post.pool.merkle_root,
                    timestamp: now,
                })
            },
        }
    }

    /// The full contract of `transfer`.
    pub open spec fn transfer_rel(
        pre: ShieldedEngine,
        post: ShieldedEngine,
        pf: Groth16Proof,
        n1: [u8; 32],
        n2: [u8; 32],
        c1: [u8; 32],
        c2: [u8; 32],
        root: [u8; 32],
        vk_data: Seq<u8>,
        now: i64,
        r: Result<TransferEvent, ZkShieldedError>,
    ) -> bool {
        match r {
            Err(e) => post == pre && pre.transfer_result(pf, n1, n2, c1, c2, root, vk_data)
                == Err::<(), ZkShieldedError>(e),
            Ok(ev) => {
                &&& pre.transfer_result(pf, n1, n2, c1, c2, root, vk_data) == Ok::<
                    (),
                    ZkShieldedError,
                >(())
                &&& Self::spend_commit(pre, post, n1, n2, seq![c1@, c2@], now)
                &&& post.pool.total_shielded == pre.pool.total_shielded
                &&& post.pool.shielded_in@ == pre.pool.shielded_in@
                &&& post.pool.unshielded_out@ == pre.pool.unshielded_out@
                &&& ev == (TransferEvent {
                    pool: pre.pool_id,
                    nullifier_1: n1,
                    nullifier_2: n2,
                    output_commitment_1: c1,
                    output_commitment_2: c2,
                    leaf_index_1: pre.tree.leaf_count,
                    leaf_index_2: (pre.tree.leaf_count + 1) as u64,
                    new_root: post.pool.merkle_root,
                    timestamp: now,
                })
            },
        }
    }

    /// The full contract of `unshield`.
    pub open spec fn unshield_rel(
        pre: ShieldedEngine,
        post: ShieldedEngine,
        recipient: [u8; 32],
        pf: Groth16Proof,
        n1: [u8; 32],
        n2: [u8; 32],
        c1: [u8; 32],
        c2: [u8; 32],
        root: [u8; 32],
        amount: u64,
        vk_data: Seq<u8>,
        now: i64,
        r: Result<UnshieldEvent, ZkShieldedError>,
    ) -> bool {
        match r {
            Err(e) => post == pre && pre.unshield_result(pf, n1, n2, c1, c2, root, amount, vk_data)
                == Err::<(), ZkShieldedError>(e),
            Ok(ev) => {
                &&& pre.unshield_result(pf, n1, n2, c1, c2, root, amount, vk_data) == Ok::<
                    (),
                    ZkShieldedError,
                >(())
                &&& Self::spend_commit(
                    pre,
                    post,
                    n1,
                    n2,
                    if is_zero_commitment(c1@) {
                        seq![]
                    } else {
                        seq![c1@]
                    },
                    now,
                )
                &&& post.pool.total_shielded == pre.pool.total_shielded - amount
                &&& post.pool.shielded_in@ == pre.pool.shielded_in@
                &&& post.pool.unshielded_out@ == pre.pool.unshielded_out@ + amount
                &&& ev == (UnshieldEvent {
                    pool: pre.pool_id,
                    recipient,
                    amount,
                    nullifier_1: n1,
                    nullifier_2: n2,
                    change_commitment: c1,
                    change_leaf_index: if is_zero_commitment(c1@) {
                        None
                    } else {
                        Some(pre.tree.leaf_count)
                    },
                    new_root: post.pool.merkle_root,
                    timestamp: now,
                })
            },
        }
    }

    /// The full contract of `transfer_via_relayer`.
    pub open spec fn relayer_transfer_rel(
        pre: ShieldedEngine,
        post: ShieldedEngine,
        submitter: [u8; 32],
        pf: Groth16Proof,
        n1: [u8; 32],
        n2: [u8; 32],
        c1: [u8; 32],
        c2: [u8; 32],
        c_fee: [u8; 32],
        root: [u8; 32],
        vk_data: Seq<u8>,
        now: i64,
        r: Result<RelayerTransferEvent, ZkShieldedError>,
    ) -> bool {
        match r {
            Err(e) => post == pre && pre.relayer_transfer_result(
                submitter,
                pf,
                n1,
                n2,
                c1,
                c2,
                c_fee,
                root,
                vk_data,
            ) == Err::<(), ZkShieldedError>(e),
            Ok(ev) => {
                &&& pre.relayer_transfer_result(submitter, pf, n1, n2, c1, c2, c_fee, root, vk_data)
                    == Ok::<(), ZkShieldedError>(())
                &&& Self::spend_commit(pre, post, n1, n2, seq![c1@, c2@, c_fee@], now)
                &&& post.pool.total_shielded == pre.pool.total_shielded
                &&& post.pool.shielded_in@ == pre.pool.shielded_in@
                &&& post.pool.unshielded_out@ == pre.pool.unshielded_out@
                &&& ev == (RelayerTransferEvent {
                    pool: pre.pool_id,
                    relayer: submitter,
                    nullifier_1: n1,
                    nullifier_2: n2,
                    output_commitment_1: c1,
                    output_commitment_2: c2,
                    output_commitment_relayer_fee: c_fee,
                    leaf_indices: [
                        pre.tree.leaf_count,
                        (pre.tree.leaf_count + 1) as u64,
                        (pre.tree.leaf_count + 2) as u64,
                    ],
                    new_root: post.pool.merkle_root,
                    timestamp: now,
                })
            },
        }
    }

    /// Create a pool with its empty tree and empty nullifier set. The
    /// authority is the default relayer and the fee defaults to 10 basis
    /// points; the pool starts active with a zero balance.
    pub fn initialize_pool(
        pool_id: [u8; 32],
        authority: [u8; 32],
        token_mint: [u8; 32],
        vk_hash: [u8; 32],
        tree_depth: u8,
        now: i64,
    ) -> (r: ShieldedEngine)
        requires
            tree_depth < 64,
        ensures
            r.wf(),
            r.pool_id == pool_id,
            r.pool.authority == authority,
            r.pool.token_mint == token_mint,
            r.pool.vk_hash == vk_hash,
            r.pool.tree_depth == tree_depth,
            r.pool.next_leaf_index == 0,
            r.pool.total_shielded == 0,
            r.pool.is_active,
            r.pool.relayer == authority,
            r.pool.relayer_fee_bps == 10,
            r.pool.created_at == now,
            r.pool.last_tx_at == now,
            r.pool.historical_roots@.len() == 0,
            r.pool.shielded_in@ == 0,
            r.pool.unshielded_out@ == 0,
            r.pool.root_trace@ =~= seq![r.pool.merkle_root@],
            r.tree.leaf_count == 0,
            r.tree.leaves@ == Seq::<Seq<u8>>::empty(),
            r.pool.merkle_root@ == merkle_root_spec(Seq::<Seq<u8>>::empty(), tree_depth as nat),
            r.nullifiers.count == 0,
            r.nullifiers.num_hash_functions == 7,
            r.nullifiers.added@ == Seq::<Seq<u8>>::empty(),
            forall|idx: u64| idx < 16384 ==> !bloom_bit(r.nullifiers.bloom_filter@, idx),
    {
        let tree = MerkleTreeState::new(pool_id, tree_depth, true);
        let pool = ShieldedPool::new(authority, token_mint, vk_hash, tree_depth, tree.root, 10, now);
        let nullifiers = NullifierSet::new(pool_id);
        ShieldedEngine { pool_id, pool, tree, nullifiers }
    }

    /// Shield: credit the pool's balance and append the deposit's commitment.
    /// The host performs the transparent debit of `depositor` first and
    /// aborts the whole operation if this returns an error.
    pub fn shield(
        &mut self,
        depositor: [u8; 32],
        amount: u64,
        commitment: [u8; 32],
        now: i64,
    ) -> (r: Result<ShieldEvent, ZkShieldedError>)
        requires
            old(self).wf(),
        ensures
            final(self).wf(),
            Self::shield_rel(*old(self), *final(self), depositor, amount, commitment, now, r),
    {
        if !self.pool.is_active {
            return Err(ZkShieldedError::PoolNotActive);
        }
        if amount == 0 {
            return Err(ZkShieldedError::InvalidAmount);
        }
        if u64::MAX - self.pool.total_shielded < amount {
            return Err(ZkShieldedError::ArithmeticOverflow);
        }
        let leaf_index = match self.tree.insert(commitment) {
            Ok(ix) => ix,
            Err(e) => {
                return Err(e);
            },
        };
        self.pool.update_root(self.tree.root);
        self.pool.next_leaf_index = self.tree.leaf_count;
        self.pool.total_shielded = self.pool.total_shielded + amount;
        proof {
            self.pool.shielded_in@ = (self.pool.shielded_in@ + amount) as nat;
        }
        self.pool.last_tx_at = now;
        Ok(
            ShieldEvent {
                pool: self.pool_id,
                depositor,
                amount,
                commitment,
                leaf_index,
                new_root: self.pool.merkle_root,
                timestamp: now,
            },
        )
    }

    /// Transfer: spend two notes and create two, value conserved inside the
    /// circuit (`public_amount = 0`). Anyone may submit.
    pub fn transfer(
        &mut self,
        proof: &Groth16Proof,
        nullifier_1: [u8; 32],
        nullifier_2: [u8; 32],
        output_commitment_1: [u8; 32],
        output_commitment_2: [u8; 32],
        merkle_root: [u8; 32],
        vk_data: &[u8],
        now: i64,
    ) -> (r: Result<TransferEvent, ZkShieldedError>)
        requires
            old(self).wf(),
            old(self).nullifiers.count <= u64::MAX - 2,
        ensures
            final(self).wf(),
            Self::transfer_rel(
                *old(self),
                *final(self),
                *proof,
                nullifier_1,
                nullifier_2,
                output_commitment_1,
                output_commitment_2,
                merkle_root,
                vk_data@,
                now,
                r,
            ),
    {
        if !self.pool.is_active {
            return Err(ZkShieldedError::PoolNotActive);
        }
        if !self.pool.is_valid_root(&merkle_root) {
            return Err(ZkShieldedError::InvalidMerkleRoot);
        }
        if self.nullifiers.might_contain(&nullifier_1) {
            return Err(ZkShieldedError::NullifierAlreadySpent);
        }
        if self.nullifiers.might_contain(&nullifier_2) {
            return Err(ZkShieldedError::NullifierAlreadySpent);
        }
        let computed_vk_hash = Groth16Verifier::hash_verification_key(vk_data);
        if !bytes32_eq(&computed_vk_hash, &self.pool.vk_hash) {
            return Err(ZkShieldedError::InvalidVerificationKey);
        }
        let is_valid = match Groth16Verifier::verify_transfer(
            proof,
            &merkle_root,
            &nullifier_1,
            &nullifier_2,
            &output_commitment_1,
            &output_commitment_2,
            0,
            &self.pool.token_mint,
            vk_data,
        ) {
            Ok(b) => b,
            Err(e) => {
                return Err(e);
            },
        };
        if !is_valid {
            return Err(ZkShieldedError::InvalidProof);
        }
        proof {
            lemma_u64_pow2_no_overflow(self.tree.depth as nat);
            lemma_u64_shl_is_mul(1u64, self.tree.depth as u64);
        }
        let max_leaves = 1u64 << (self.tree.depth as u64);
        if max_leaves < 2 || self.tree.leaf_count > max_leaves - 2 {
            return Err(ZkShieldedError::MerkleTreeFull);
        }
        let ghost pre = *self;
        let ghost k = self.nullifiers.num_hash_functions as u64;
        self.nullifiers.add(&nullifier_1);
        let ghost mid_bloom = self.nullifiers.bloom_filter@;
        self.nullifiers.add(&nullifier_2);
        let leaf_index_1 = match self.tree.insert(output_commitment_1) {
            Ok(ix) => ix,
            Err(e) => {
                proof {
                    assert(false);
                }
                return Err(e);
            },
        };
        let leaf_index_2 = match self.tree.insert(output_commitment_2) {
            Ok(ix) => ix,
            Err(e) => {
                proof {
                    assert(false);
                }
                return Err(e);
            },
        };
        self.pool.update_root(self.tree.root);
        self.pool.next_leaf_index = self.tree.leaf_count;
        self.pool.last_tx_at = now;
        proof {
            lemma_probes_monotone(pre.nullifiers.bloom_filter@, mid_bloom, nullifier_1@, k);
            lemma_probes_monotone(mid_bloom, self.nullifiers.bloom_filter@, nullifier_2@, k);
            lemma_might_contain_monotone(
                mid_bloom,
                self.nullifiers.bloom_filter@,
                nullifier_1@,
                k,
            );
            assert(self.tree.leaves@ =~= pre.tree.leaves@ + seq![
                output_commitment_1@,
                output_commitment_2@,
            ]);
        }
        Ok(
            TransferEvent {
                pool: self.pool_id,
                nullifier_1,
                nullifier_2,
                output_commitment_1,
                output_commitment_2,
                leaf_index_1,
                leaf_index_2,
                new_root: self.pool.merkle_root,
                timestamp: now,
            },
        )
    }

    /// Unshield: spend two notes, append the non-zero change commitment, and
    /// debit the pool's balance; the host credits `recipient` with the amount
    /// afterwards and aborts everything if either side fails.
    pub fn unshield(
        &mut self,
        recipient: [u8; 32],
        proof: &Groth16Proof,
        nullifier_1: [u8; 32],
        nullifier_2: [u8; 32],
        output_commitment_1: [u8; 32],
        output_commitment_2: [u8; 32],
        merkle_root: [u8; 32],
        amount: u64,
        vk_data: &[u8],
        now: i64,
    ) -> (r: Result<UnshieldEvent, ZkShieldedError>)
        requires
            old(self).wf(),
            old(self).nullifiers.count <= u64::MAX - 2,
            amount <= i64::MAX as u64,
        ensures
            final(self).wf(),
            Self::unshield_rel(
                *old(self),
                *final(self),
                recipient,
                *proof,
                nullifier_1,
                nullifier_2,
                output_commitment_1,
                output_commitment_2,
                merkle_root,
                amount,
                vk_data@,
                now,
                r,
            ),
    {
        if !self.pool.is_active {
            return Err(ZkShieldedError::PoolNotActive);
        }
        if !self.pool.is_valid_root(&merkle_root) {
            return Err(ZkShieldedError::InvalidMerkleRoot);
        }
        if amount == 0 {
            return Err(ZkShieldedError::InvalidAmount);
        }
        if self.nullifiers.might_contain(&nullifier_1) {
            return Err(ZkShieldedError::NullifierAlreadySpent);
        }
        if self.nullifiers.might_contain(&nullifier_2) {
            return Err(ZkShieldedError::NullifierAlreadySpent);
        }
        if self.pool.total_shielded < amount {
            return Err(ZkShieldedError::InsufficientBalance);
        }
        let computed_vk_hash = Groth16Verifier::hash_verification_key(vk_data);
        if !bytes32_eq(&computed_vk_hash, &self.pool.vk_hash) {
            return Err(ZkShieldedError::InvalidVerificationKey);
        }
        let public_amount = -(amount as i64);
        let is_valid = match Groth16Verifier::verify_transfer(
            proof,
            &merkle_root,
            &nullifier_1,
            &nullifier_2,
            &output_commitment_1,
            &output_commitment_2,
            public_amount,
            &self.pool.token_mint,
            vk_data,
        ) {
            Ok(b) => b,
            Err(e) => {
                return Err(e);
            },
        };
        if !is_valid {
            return Err(ZkShieldedError::InvalidProof);
        }
        let zero = [0u8; 32];
        let insert_change = !bytes32_eq(&output_commitment_1, &zero);
        proof {
            lemma_u64_pow2_no_overflow(self.tree.depth as nat);
            lemma_u64_shl_is_mul(1u64, self.tree.depth as u64);
            if output_commitment_1@ == zero@ {
                assert(is_zero_commitment(output_commitment_1@));
            } else {
                assert(!is_zero_commitment(output_commitment_1@)) by {
                    if is_zero_commitment(output_commitment_1@) {
                        assert(output_commitment_1@ =~= zero@);
                    }
                }
            }
        }
        let max_leaves = 1u64 << (self.tree.depth as u64);
        if insert_change && self.tree.leaf_count >= max_leaves {
            return Err(ZkShieldedError::MerkleTreeFull);
        }
        let ghost pre = *self;
        let ghost k = self.nullifiers.num_hash_functions as u64;
        self.nullifiers.add(&nullifier_1);
        let ghost mid_bloom = self.nullifiers.bloom_filter@;
        self.nullifiers.add(&nullifier_2);
        let change_leaf_index = if insert_change {
            match self.tree.insert(output_commitment_1) {
                Ok(ix) => Some(ix),
                Err(e) => {
                    proof {
                        assert(false);
                    }
                    return Err(e);
                },
            }
        } else {
            None
        };
        self.pool.update_root(self.tree.root);
        self.pool.next_leaf_index = self.tree.leaf_count;
        self.pool.total_shielded = self.pool.total_shielded - amount;
        proof {
            self.pool.unshielded_out@ = (self.pool.unshielded_out@ + amount) as nat;
        }
        self.pool.last_tx_at = now;
        proof {
            lemma_probes_monotone(pre.nullifiers.bloom_filter@, mid_bloom, nullifier_1@, k);
            lemma_probes_monotone(mid_bloom, self.nullifiers.bloom_filter@, nullifier_2@, k);
            lemma_might_contain_monotone(
                mid_bloom,
                self.nullifiers.bloom_filter@,
                nullifier_1@,
                k,
            );
            if insert_change {
                assert(self.tree.leaves@ =~= pre.tree.leaves@ + seq![output_commitment_1@]);
            } else {
                assert(self.tree.leaves@ =~= pre.tree.leaves@ + Seq::<Seq<u8>>::empty());
            }
        }
        Ok(
            UnshieldEvent {
                pool: self.pool_id,
                recipient,
                amount,
                nullifier_1,
                nullifier_2,
                change_commitment: output_commitment_1,
                change_leaf_index,
                new_root: self.pool.merkle_root,
                timestamp: now,
            },
        )
    }

    /// Relayer transfer: like `transfer` with a third, fee output addressed
    /// to the relayer; only the pool's relayer may submit it.
    pub fn transfer_via_relayer(
        &mut self,
        submitter: [u8; 32],
        proof: &Groth16Proof,
        nullifier_1: [u8; 32],
        nullifier_2: [u8; 32],
        output_commitment_1: [u8; 32],
        output_commitment_2: [u8; 32],
        output_commitment_relayer_fee: [u8; 32],
        merkle_root: [u8; 32],
        vk_data: &[u8],
        now: i64,
    ) -> (r: Result<RelayerTransferEvent, ZkShieldedError>)
        requires
            old(self).wf(),
            old(self).nullifiers.count <= u64::MAX - 2,
        ensures
            final(self).wf(),
            Self::relayer_transfer_rel(
                *old(self),
                *final(self),
                submitter,
                *proof,
                nullifier_1,
                nullifier_2,
                output_commitment_1,
                output_commitment_2,
                output_commitment_relayer_fee,
                merkle_root,
                vk_data@,
                now,
                r,
            ),
    {
        if !bytes32_eq(&submitter, &self.pool.relayer) {
            proof {
                assert(submitter != self.pool.relayer);
            }
            return Err(ZkShieldedError::Unauthorized);
        }
        proof {
            assert(submitter =~= self.pool.relayer);
        }
        if !self.pool.is_active {
            return Err(ZkShieldedError::PoolNotActive);
        }
        if !self.pool.is_valid_root(&merkle_root) {
            return Err(ZkShieldedError::InvalidMerkleRoot);
        }
        if self.nullifiers.might_contain(&nullifier_1) {
            return Err(ZkShieldedError::NullifierAlreadySpent);
        }
        if self.nullifiers.might_contain(&nullifier_2) {
            return Err(ZkShieldedError::NullifierAlreadySpent);
        }
        let computed_vk_hash = Groth16Verifier::hash_verification_key(vk_data);
        if !bytes32_eq(&computed_vk_hash, &self.pool.vk_hash) {
            return Err(ZkShieldedError::InvalidVerificationKey);
        }
        let is_valid = match Groth16Verifier::verify_transfer(
            proof,
            &merkle_root,
            &nullifier_1,
            &nullifier_2,
            &output_commitment_1,
            &output_commitment_2,
            0,
            &self.pool.token_mint,
            vk_data,
        ) {
            Ok(b) => b,
            Err(e) => {
                return Err(e);
            },
        };
        if !is_valid {
            return Err(ZkShieldedError::InvalidProof);
        }
        proof {
            lemma_u64_pow2_no_overflow(self.tree.depth as nat);
            lemma_u64_shl_is_mul(1u64, self.tree.depth as u64);
        }
        let max_leaves = 1u64 << (self.tree.depth as u64);
        if max_leaves < 3 || self.tree.leaf_count > max_leaves - 3 {
            return Err(ZkShieldedError::MerkleTreeFull);
        }
        let ghost pre = *self;
        let ghost k = self.nullifiers.num_hash_functions as u64;
        self.nullifiers.add(&nullifier_1);
        let ghost mid_bloom = self.nullifiers.bloom_filter@;
        self.nullifiers.add(&nullifier_2);
        let leaf_index_1 = match self.tree.insert(output_commitment_1) {
            Ok(ix) => ix,
            Err(e) => {
                proof {
                    assert(false);
                }
                return Err(e);
            },
        };
        let leaf_index_2 = match self.tree.insert(output_commitment_2) {
            Ok(ix) => ix,
            Err(e) => {
                proof {
                    assert(false);
                }
                return Err(e);
            },
        };
        let leaf_index_fee = match self.tree.insert(output_commitment_relayer_fee) {
            Ok(ix) => ix,
            Err(e) => {
                proof {
                    assert(false);
                }
                return Err(e);
            },
        };
        self.pool.update_root(self.tree.root);
        self.pool.next_leaf_index = self.tree.leaf_count;
        self.pool.last_tx_at = now;
        proof {
            lemma_probes_monotone(pre.nullifiers.bloom_filter@, mid_bloom, nullifier_1@, k);
            lemma_probes_monotone(mid_bloom, self.nullifiers.bloom_filter@, nullifier_2@, k);
            lemma_might_contain_monotone(
                mid_bloom,
                self.nullifiers.bloom_filter@,
                nullifier_1@,
                k,
            );
            assert(self.tree.leaves@ =~= pre.tree.leaves@ + seq![
                output_commitment_1@,
                output_commitment_2@,
                output_commitment_relayer_fee@,
            ]);
        }
        Ok(
            RelayerTransferEvent {
                pool: self.pool_id,
                relayer: submitter,
                nullifier_1,
                nullifier_2,
                output_commitment_1,
                output_commitment_2,
                output_commitment_relayer_fee,
                leaf_indices: [leaf_index_1, leaf_index_2, leaf_index_fee],
                new_root: self.pool.merkle_root,
                timestamp: now,
            },
        )
    }

    /// Rotate the pool's verification-key hash. Authority only; after the
    /// rotation every proof whose VK bytes hash to the old value is rejected.
    pub fn update_verification_key(
        &mut self,
        submitter: [u8; 32],
        new_vk_hash: [u8; 32],
        now: i64,
    ) -> (r: Result<VKUpdateEvent, ZkShieldedError>)
        requires
            old(self).wf(),
        ensures
            final(self).wf(),
            Self::update_vk_rel(*old(self), *final(self), submitter, new_vk_hash, now, r),
    {
        if !bytes32_eq(&submitter, &self.pool.authority) {
            proof {
                assert(submitter@ != self.pool.authority@);
                assert(submitter != self.pool.authority);
            }
            return Err(ZkShieldedError::Unauthorized);
        }
        proof {
            assert(submitter =~= self.pool.authority);
        }
        let old_vk_hash = self.pool.vk_hash;
        self.pool.vk_hash = new_vk_hash;
        Ok(
            VKUpdateEvent {
                pool: self.pool_id,
                old_vk_hash,
                new_vk_hash,
                authority: submitter,
                timestamp: now,
            },
        )
    }

    /// The full contract of `update_verification_key`.
    pub open spec fn update_vk_rel(
        pre: ShieldedEngine,
        post: ShieldedEngine,
        submitter: [u8; 32],
        new_vk_hash: [u8; 32],
        now: i64,
        r: Result<VKUpdateEvent, ZkShieldedError>,
    ) -> bool {
        match r {
            Err(e) => post == pre && submitter != pre.pool.authority && e
                == ZkShieldedError::Unauthorized,
            Ok(ev) => {
                &&& submitter == pre.pool.authority
                &&& post.pool == (ShieldedPool { vk_hash: new_vk_hash, ..pre.pool })
                &&& post.tree == pre.tree
                &&& post.nullifiers == pre.nullifiers
                &&& post.pool_id == pre.pool_id
                &&& ev == (VKUpdateEvent {
                    pool: pre.pool_id,
                    old_vk_hash: pre.pool.vk_hash,
                    new_vk_hash,
                    authority: submitter,
                    timestamp: now,
                })
            },
        }
    }
}

/// After every accepted operation the pool mirrors its accumulator:
/// `next_leaf_index` is the tree's leaf count and `merkle_root` is the root
/// of the leaves inserted so far under the fixed hash.
pub proof fn lemma_pool_tracks_tree(e: ShieldedEngine)
    requires
        e.wf(),
    ensures
        e.pool.next_leaf_index == e.tree.leaf_count,
        e.pool.merkle_root@ == merkle_root_spec(e.tree.leaves@, e.tree.depth as nat),
{
}

/// `total_shielded` equals the sum of all shielded amounts minus the sum of
/// all unshielded amounts, in every reachable state.
pub proof fn lemma_balance_accounting(e: ShieldedEngine)
    requires
        e.wf(),
    ensures
        e.pool.total_shielded == e.pool.shielded_in@ - e.pool.unshielded_out@,
{
}

/// A shield of `a` followed by an accepted unshield of `a` hands exactly `a`
/// to the recipient and restores `total_shielded` to its pre-shield value.
pub proof fn lemma_shield_unshield_roundtrip(
    pre: ShieldedEngine,
    mid: ShieldedEngine,
    post: ShieldedEngine,
    depositor: [u8; 32],
    amount: u64,
    commitment: [u8; 32],
    now1: i64,
    ev1: ShieldEvent,
    recipient: [u8; 32],
    pf: Groth16Proof,
    n1: [u8; 32],
    n2: [u8; 32],
    c1: [u8; 32],
    c2: [u8; 32],
    root: [u8; 32],
    vk_data: Seq<u8>,
    now2: i64,
    ev2: UnshieldEvent,
)
    requires
        ShieldedEngine::shield_rel(pre, mid, depositor, amount, commitment, now1, Ok(ev1)),
        ShieldedEngine::unshield_rel(
            mid,
            post,
            recipient,
            pf,
            n1,
            n2,
            c1,
            c2,
            root,
            amount,
            vk_data,
            now2,
            Ok(ev2),
        ),
    ensures
        post.pool.total_shielded == pre.pool.total_shielded,
        ev2.amount == amount,
        ev2.recipient == recipient,
{
}

/// A transfer is value-neutral: an accepted `transfer` leaves
/// `total_shielded` unchanged.
pub proof fn lemma_transfer_value_neutral(
    pre: ShieldedEngine,
    post: ShieldedEngine,
    pf: Groth16Proof,
    n1: [u8; 32],
    n2: [u8; 32],
    c1: [u8; 32],
    c2: [u8; 32],
    root: [u8; 32],
    vk_data: Seq<u8>,
    now: i64,
    ev: TransferEvent,
)
    requires
        ShieldedEngine::transfer_rel(pre, post, pf, n1, n2, c1, c2, root, vk_data, now, Ok(ev)),
    ensures
        post.pool.total_shielded == pre.pool.total_shielded,
{
}

/// A zero amount is rejected on every value-flow operation that carries one:
/// `shield` refuses it outright and `unshield` refuses it once the root is
/// accepted.
pub proof fn lemma_zero_amount_rejected(
    e: ShieldedEngine,
    pf: Groth16Proof,
    n1: [u8; 32],
    n2: [u8; 32],
    c1: [u8; 32],
    c2: [u8; 32],
    root: [u8; 32],
    vk_data: Seq<u8>,
)
    requires
        e.pool.is_active,
    ensures
        e.shield_result(0) == Err::<(), ZkShieldedError>(ZkShieldedError::InvalidAmount),
        e.pool.root_in_window(root@) ==> e.unshield_result(pf, n1, n2, c1, c2, root, 0, vk_data)
            == Err::<(), ZkShieldedError>(ZkShieldedError::InvalidAmount),
{
}

/// A tree holding `2^depth` leaves accepts no further inserts: a shield into
/// a full tree fails with `MerkleTreeFull` once every earlier check passes.
pub proof fn lemma_full_tree_rejects(e: ShieldedEngine, amount: u64)
    requires
        e.wf(),
        e.pool.is_active,
        amount > 0,
        e.pool.total_shielded + amount <= u64::MAX,
        e.tree.leaf_count as nat == pow2(e.tree.depth as nat),
    ensures
        e.shield_result(amount) == Err::<(), ZkShieldedError>(ZkShieldedError::MerkleTreeFull),
{
}

/// A nullifier pair that was already spent is rejected on the second
/// attempt: after an accepted transfer that spent `n1`, any further spend
/// naming `n1` fails with `NullifierAlreadySpent`, whatever else it carries.
pub proof fn lemma_double_spend_rejected(
    pre: ShieldedEngine,
    mid: ShieldedEngine,
    pf: Groth16Proof,
    n1: [u8; 32],
    n2: [u8; 32],
    c1: [u8; 32],
    c2: [u8; 32],
    root: [u8; 32],
    vk_data: Seq<u8>,
    now: i64,
    ev: TransferEvent,
    pf2: Groth16Proof,
    n2b: [u8; 32],
    c1b: [u8; 32],
    c2b: [u8; 32],
    rootb: [u8; 32],
    vkb: Seq<u8>,
)
    requires
        ShieldedEngine::transfer_rel(pre, mid, pf, n1, n2, c1, c2, root, vk_data, now, Ok(ev)),
        mid.pool.is_active,
        mid.pool.root_in_window(rootb@),
    ensures
        mid.transfer_result(pf2, n1, n2b, c1b, c2b, rootb, vkb) == Err::<(), ZkShieldedError>(
            ZkShieldedError::NullifierAlreadySpent,
        ),
{
}

/// After the verification key is rotated, a spend whose VK bytes hash to
/// anything but the new value is rejected before proof verification.
pub proof fn lemma_vk_rotation_rejects_stale_key(
    pre: ShieldedEngine,
    mid: ShieldedEngine,
    submitter: [u8; 32],
    new_vk_hash: [u8; 32],
    now: i64,
    ev: VKUpdateEvent,
    pf: Groth16Proof,
    n1: [u8; 32],
    n2: [u8; 32],
    c1: [u8; 32],
    c2: [u8; 32],
    root: [u8; 32],
    old_vk: Seq<u8>,
)
    requires
        ShieldedEngine::update_vk_rel(pre, mid, submitter, new_vk_hash, now, Ok(ev)),
        keccak(old_vk) != new_vk_hash@,
        mid.pool.is_active,
        mid.pool.root_in_window(root@),
        !bloom_might_contain(
            mid.nullifiers.bloom_filter@,
            n1@,
            mid.nullifiers.num_hash_functions as u64,
        ),
        !bloom_might_contain(
            mid.nullifiers.bloom_filter@,
            n2@,
            mid.nullifiers.num_hash_functions as u64,
        ),
    ensures
        mid.transfer_result(pf, n1, n2, c1, c2, root, old_vk) == Err::<(), ZkShieldedError>(
            ZkShieldedError::InvalidVerificationKey,
        ),
{
}

/// A root older than the acceptance window is rejected: a spend referencing
/// a root that differs from the last 101 roots of the pool's history fails
/// with `InvalidMerkleRoot`.
pub proof fn lemma_stale_root_rejected(
    e: ShieldedEngine,
    pf: Groth16Proof,
    n1: [u8; 32],
    n2: [u8; 32],
    c1: [u8; 32],
    c2: [u8; 32],
    root: [u8; 32],
    vk_data: Seq<u8>,
)
    requires
        e.wf(),
        e.pool.is_active,
        forall|t: int|
            0 <= t < e.pool.root_trace@.len() && t >= e.pool.root_trace@.len() - 101
                ==> e.pool.root_trace@[t] != root@,
    ensures
        e.transfer_result(pf, n1, n2, c1, c2, root, vk_data) == Err::<(), ZkShieldedError>(
            ZkShieldedError::InvalidMerkleRoot,
        ),
{
    lemma_old_root_rejected(e.pool, root@);
}

} // verus!
