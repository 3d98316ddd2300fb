//! The validator's state machine: it applies votes and proposals, decides this
//! node's own votes and proposals, grows the view chain and commits finalized
//! slots. It does no I/O: what it wants sent, fetched, stored or executed it
//! queues as actions for its owner to carry out.

use std::collections::HashMap;

use vstd::prelude::*;

use crate::codec::{models, Wire};
use crate::consensus::{
    key_position, stakes_accounted, lemma_block_vote_accounted, lemma_null_vote_accounted, lemma_voters_stake_bounded, stake_sum,
    accepted_transition,
    block_vote_effect, first_vote, is_fresh_slot,
    null_vote_effect, should_flee_to_safety, view_transition, votes_consistent,
    BlockNotarization, BlockVerificationResult, Consensus, EpochState, FirstVote,
    HandleBlockVoteResult, HandleNullificationVoteResult, LeaderState,
    NullificationNotarization, SlotConsensusState, ValidatorData, ValidatorSlotState,
    ViewTransition, VoteState, copy_votes,
};
use crate::crypto::{
    ed25519_accepts, ed25519_public_of, ed25519_signature_of, PrivateKey, PublicKey,
    Sha256Digest,
};
use crate::execution::Execution;
use crate::types::{
    block_hash_of, calculate_null_hash, copy_transactions, null_hash_of, pow_hash_of, txhash_of, Block, BlockData, BlockVote,
    NotarizedBlock, NotarizedNullification, NullVote, SlotState, Transaction,
};
use crate::execution::{bytes_less, digest_less, lemma_bytes_less_trans, lemma_bytes_total, contains_digest, executed_prefix, holds_digest, transaction_valid};

verus! {

broadcast use {vstd::std_specs::hash::group_hash_axioms, vstd::array::group_array_axioms};

/// Work that the state machine hands to its owner.
#[derive(Clone, Debug, PartialEq)]
pub enum Action {
    BroadcastBlockProposal(Block),
    BroadcastBlockVote(BlockVote),
    BroadcastNullVote(NullVote),
    /// Ask a random peer for up to 100 notarizations from this height on.
    RequestNotarizations(u64),
    /// Ask a random peer for up to 100 blocks from this height on.
    RequestBlocks(u64),
    /// Write this outcome to the blockchain store under its height.
    PersistSlot(SlotState),
    /// Hand this finalized block to the application.
    ApplyBlock(NotarizedBlock),
}

/// The consensus state of one validator node.
#[derive(Debug)]
pub struct ValidatorStateMachine {
    pub slot_consensus: HashMap<u64, SlotConsensusState>,
    pub slot_start: u64,
    pub last_time_asked_for_votes: u64,
    pub last_time_rebroadcast_votes: u64,
    /// The view chain: entry `i` holds the outcome at height `latest_finalized_block_height + i`.
    pub viewchain: Vec<SlotState>,
    pub view_consumed_pow_hashes: Vec<Sha256Digest>,
    pub view_consumed_txs: Vec<Sha256Digest>,
    pub latest_finalized_block_height: u64,
    pub latest_non_cancellable_slot_height: u64,
    pub latest_view_height: u64,
    pub epoch_states: Vec<EpochState>,
    pub pub_key: PublicKey,
    pub private_key: PrivateKey,
    pub local_validator_slot_state: HashMap<u64, ValidatorSlotState>,
    pub mempool: Vec<Transaction>,
    pub execution: Execution,
    pub outbox: Vec<Action>,
}

/// The transactions of `s` that satisfy `keep`, in order.
pub open spec fn keep_where(
    s: Seq<crate::types::TransactionModel>,
    keep: spec_fn(crate::types::TransactionModel) -> bool,
) -> Seq<crate::types::TransactionModel>
    decreases s.len(),
{
    if s.len() == 0 {
        Seq::empty()
    } else {
        let rest = keep_where(s.drop_last(), keep);
        if keep(s.last()) {
            rest.push(s.last())
        } else {
            rest
        }
    }
}

/// No two transactions of `s` have the same hash.
pub open spec fn distinct_txhashes(s: Seq<crate::types::TransactionModel>) -> bool {
    forall|i: int, j: int| 0 <= i < j < s.len() ==> txhash_of(#[trigger] s[i]) != txhash_of(#[trigger] s[j])
}

proof fn lemma_keep_where_members(
    s: Seq<crate::types::TransactionModel>,
    keep: spec_fn(crate::types::TransactionModel) -> bool,
)
    ensures
        forall|i: int|
            0 <= i < keep_where(s, keep).len() ==> exists|j: int|
                0 <= j < s.len() && s[j] == #[trigger] keep_where(s, keep)[i],
    decreases s.len(),
{
    if s.len() > 0 {
        lemma_keep_where_members(s.drop_last(), keep);
        let rest = keep_where(s.drop_last(), keep);
        assert forall|i: int| 0 <= i < keep_where(s, keep).len() implies exists|j: int|
            0 <= j < s.len() && s[j] == #[trigger] keep_where(s, keep)[i] by {
            if i < rest.len() {
                let j = choose|j: int| 0 <= j < s.drop_last().len() && s.drop_last()[j] == rest[i];
                assert(s[j] == s.drop_last()[j]);
            } else {
                assert(s[s.len() - 1] == s.last());
            }
        }
    }
}

/// The transactions of `s` come in strictly increasing order of their hashes.
pub open spec fn sorted_txhashes(s: Seq<crate::types::TransactionModel>) -> bool {
    forall|i: int, j: int| 0 <= i < j < s.len() ==> bytes_less(txhash_of(#[trigger] s[i]), txhash_of(#[trigger] s[j]))
}

/// A list in strictly increasing order of hashes has no hash twice.
proof fn lemma_sorted_distinct(s: Seq<crate::types::TransactionModel>)
    requires
        sorted_txhashes(s),
    ensures
        distinct_txhashes(s),
{
    assert forall|i: int, j: int| 0 <= i < j < s.len() implies txhash_of(#[trigger] s[i]) != txhash_of(#[trigger] s[j]) by {
        let a = txhash_of(s[i]);
        let b = txhash_of(s[j]);
        let k = choose|k: int| 0 <= k < a.len() && k < b.len() && a[k] < b[k] && forall|m: int| 0 <= m < k ==> a[m] == b[m];
        assert(a[k] != b[k]);
    }
}

/// Keeping some transactions of a sorted list keeps it sorted.
proof fn lemma_keep_where_sorted(
    s: Seq<crate::types::TransactionModel>,
    keep: spec_fn(crate::types::TransactionModel) -> bool,
)
    requires
        sorted_txhashes(s),
    ensures
        sorted_txhashes(keep_where(s, keep)),
    decreases s.len(),
{
    if s.len() > 0 {
        let init = s.drop_last();
        assert(sorted_txhashes(init)) by {
            assert forall|i: int, j: int| 0 <= i < j < init.len() implies bytes_less(txhash_of(#[trigger] init[i]),
                txhash_of(#[trigger] init[j])) by {
                assert(init[i] == s[i] && init[j] == s[j]);
            }
        }
        lemma_keep_where_sorted(init, keep);
        lemma_keep_where_members(init, keep);
        let rest = keep_where(init, keep);
        if keep(s.last()) {
            let r = rest.push(s.last());
            assert forall|i: int, j: int| 0 <= i < j < r.len() implies bytes_less(txhash_of(#[trigger] r[i]),
                txhash_of(#[trigger] r[j])) by {
                if j == r.len() - 1 {
                    let k = choose|k: int| 0 <= k < init.len() && init[k] == #[trigger] rest[i];
                    assert(s[k] == init[k]);
                    assert(s[s.len() - 1] == s.last());
                } else {
                    assert(r[i] == rest[i] && r[j] == rest[j]);
                }
            }
        }
    }
}

/// The views of a list of digests.
pub open spec fn digest_views(ds: Seq<Sha256Digest>) -> Seq<Seq<u8>> {
    ds.map_values(|d: Sha256Digest| d@)
}

/// The proof-of-work hashes of an outcome's transactions (none for a nullification).
pub open spec fn block_pow_hashes(s: SlotState) -> Seq<Seq<u8>> {
    match s {
        SlotState::Block(b) => models(b.transactions@).map_values(
            |t: crate::types::TransactionModel| pow_hash_of(t),
        ),
        SlotState::Nullification(_) => Seq::empty(),
    }
}

/// The hashes of an outcome's transactions (none for a nullification).
pub open spec fn block_txhashes(s: SlotState) -> Seq<Seq<u8>> {
    match s {
        SlotState::Block(b) => models(b.transactions@).map_values(
            |t: crate::types::TransactionModel| txhash_of(t),
        ),
        SlotState::Nullification(_) => Seq::empty(),
    }
}

/// The proof-of-work hashes of the transactions of a chain's blocks, in order.
pub open spec fn chain_pow_hashes(vc: Seq<SlotState>) -> Seq<Seq<u8>>
    decreases vc.len(),
{
    if vc.len() == 0 {
        Seq::empty()
    } else {
        chain_pow_hashes(vc.drop_last()) + block_pow_hashes(vc.last())
    }
}

/// The hashes of the transactions of a chain's blocks, in order.
pub open spec fn chain_txhashes(vc: Seq<SlotState>) -> Seq<Seq<u8>>
    decreases vc.len(),
{
    if vc.len() == 0 {
        Seq::empty()
    } else {
        chain_txhashes(vc.drop_last()) + block_txhashes(vc.last())
    }
}

/// `acts` persists, in order, the nullifications among `slots`.
pub open spec fn persists_nulls(acts: Seq<Action>, slots: Seq<SlotState>) -> bool
    decreases slots.len(),
{
    if slots.len() == 0 {
        acts.len() == 0
    } else {
        match slots.last() {
            SlotState::Nullification(n) => acts.len() > 0 && (acts.last() matches Action::PersistSlot(
                SlotState::Nullification(m),
            ) && m.height == n.height && m.votes@ == n.votes@) && persists_nulls(
                acts.drop_last(),
                slots.drop_last(),
            ),
            SlotState::Block(_) => persists_nulls(acts, slots.drop_last()),
        }
    }
}

/// The finalized block `b` with the notarization `votes`.
pub open spec fn finalized_model(b: NotarizedBlock, votes: Seq<crate::types::Notarization>) -> crate::types::NotarizedBlockModel {
    crate::types::NotarizedBlockModel {
        height: b.height,
        transactions: models(b.transactions@),
        previous_block_hash: b.previous_block_hash@,
        slot_leader_signature: b.slot_leader_signature@,
        votes: models(votes),
    }
}

/// The hash of the block that a block verdict notarizes.
pub open spec fn notarized_hash(verdict: Consensus) -> Seq<u8> {
    match verdict {
        Consensus::ViewBlock(x) => x.block_hash@,
        Consensus::FinalizedBlock(y) => y.block_hash@,
        _ => Seq::empty(),
    }
}

/// The votes of a block verdict.
pub open spec fn block_votes_of_verdict(verdict: Consensus) -> Seq<crate::types::Notarization> {
    match verdict {
        Consensus::ViewBlock(x) => x.votes@,
        Consensus::FinalizedBlock(y) => y.votes@,
        _ => Seq::empty(),
    }
}

/// Every block kept at a slot has an encoding.
pub open spec fn proposals_wf(s: SlotConsensusState) -> bool {
    &&& (s.first_leader_signed_block_received matches Some(b) ==> Block::wf_model(b@))
    &&& forall|i: int|
        0 <= i < s.unverified_blocks_received@.len() ==> Block::wf_model(
            #[trigger] s.unverified_blocks_received@[i]@,
        )
}

impl ValidatorStateMachine {
    /// The outcome at height `h` in the view chain, if the chain reaches it.
    pub open spec fn view_slot(self, h: int) -> Option<SlotState> {
        let k = h - self.latest_finalized_block_height;
        if 0 <= k < self.viewchain@.len() {
            Some(self.viewchain@[k])
        } else {
            None
        }
    }

    /// The hash of the nearest block at height `h` or below, walking down the
    /// view chain through nullifications; none if a height is missing first.
    pub open spec fn nearest_block_hash(self, h: int) -> Option<Seq<u8>>
        decreases h,
    {
        match self.view_slot(h) {
            None => None,
            Some(SlotState::Block(b)) => Some(b.spec_hash()),
            Some(SlotState::Nullification(_)) => if h > 0 {
                self.nearest_block_hash(h - 1)
            } else {
                None
            },
        }
    }

    /// The epoch that governs every slot: the first one.
    pub open spec fn current_epoch(self) -> Option<EpochState> {
        if self.epoch_states@.len() > 0 {
            Some(self.epoch_states@[0])
        } else {
            None
        }
    }

    /// The leader of slot `h`: the validator with index `h` modulo the validator count.
    pub open spec fn leader_of(self, h: u64) -> Option<ValidatorData> {
        match self.current_epoch() {
            None => None,
            Some(e) => if e.validator_data@.len() == 0 {
                None
            } else {
                Some(e.validator_data@[(h % (e.validator_data@.len() as u64)) as int])
            },
        }
    }

    /// What verifying `block` against the current view chain gives.
    pub open spec fn verification_of(self, block: Block) -> BlockVerificationResult {
        match self.leader_of(block.height) {
            None => BlockVerificationResult::CouldNotVerifyDefer,
            Some(leader) => match self.nearest_block_hash(block.height - 1) {
                None => BlockVerificationResult::CouldNotVerifyDefer,
                Some(parent) => BlockVerificationResult::Verifiable(
                    ed25519_accepts(
                        leader.pub_key@,
                        block.spec_hash(),
                        block.slot_leader_signature@,
                    ) && parent == block.previous_block_hash@,
                ),
            },
        }
    }

    /// The validators whose votes count: those of the current epoch, none without one.
    pub open spec fn voter_weights(self) -> Seq<ValidatorData> {
        match self.current_epoch() {
            Some(e) => e.validator_data@,
            None => Seq::empty(),
        }
    }

    /// Every block in the view chain has an encoding, every epoch is well formed,
    /// every slot's votes are consistent, and its stakes are those of its voters.
    pub open spec fn wf(self) -> bool {
        &&& forall|i: int|
            0 <= i < self.viewchain@.len() ==> SlotState::wf_model(#[trigger] self.viewchain@[i]@)
        &&& forall|i: int| 0 <= i < self.epoch_states@.len() ==> #[trigger] self.epoch_states@[i].wf()
        &&& forall|h: u64|
            #[trigger] self.slot_consensus@.contains_key(h) ==> votes_consistent(
                self.slot_consensus@[h],
            ) && proposals_wf(self.slot_consensus@[h]) && stakes_accounted(
                self.slot_consensus@[h],
                self.voter_weights(),
            )
        &&& self.viewchain@.len() == 0 || self.viewchain@.len() == self.latest_view_height
            - self.latest_finalized_block_height + 1
        &&& self.latest_finalized_block_height <= self.latest_non_cancellable_slot_height
        &&& self.latest_non_cancellable_slot_height <= self.latest_view_height
        &&& self.mempool@.len() <= u32::MAX
        &&& sorted_txhashes(models(self.mempool@))
        &&& self.pub_key@ == ed25519_public_of(self.private_key.seed@)
        &&& forall|i: int| 0 <= i < self.mempool@.len() ==> Transaction::wf_model(#[trigger] self.mempool@[i]@)
    }

    /// In a well-formed state no slot's stakes exceed the total stake of the
    /// validators, so adding a voter's stake never saturates.
    pub proof fn lemma_stakes_within_total(self, h: u64)
        requires
            self.wf(),
            self.slot_consensus@.contains_key(h),
        ensures
            self.slot_consensus@[h].null_stake <= stake_sum(self.voter_weights()),
            forall|i: int|
                0 <= i < self.slot_consensus@[h].block_candidates@.len() ==> (
                #[trigger] self.slot_consensus@[h].block_candidates@[i]).voted_stake <= stake_sum(
                    self.voter_weights(),
                ),
    {
        let s = self.slot_consensus@[h];
        let ws = self.voter_weights();
        lemma_voters_stake_bounded(s.nullification_votes@, ws);
        assert forall|i: int| 0 <= i < s.block_candidates@.len() implies (
        #[trigger] s.block_candidates@[i]).voted_stake <= stake_sum(ws) by {
            lemma_voters_stake_bounded(s.block_candidates@[i].votes@, ws);
        }
    }

    /// A node with the given key, no view chain and no epoch yet.
    pub fn new(private_key: PrivateKey, now: u64) -> (r: ValidatorStateMachine)
        ensures
            r.wf(),
            r.viewchain@.len() == 0,
            r.epoch_states@.len() == 0,
            r.latest_view_height == 0,
            r.latest_finalized_block_height == 0,
            r.latest_non_cancellable_slot_height == 0,
            r.slot_consensus@ == Map::<u64, SlotConsensusState>::empty(),
            r.local_validator_slot_state@ == Map::<u64, ValidatorSlotState>::empty(),
            r.mempool@.len() == 0,
            r.outbox@.len() == 0,
            r.pub_key@ == ed25519_public_of(private_key.seed@),
    {
        ValidatorStateMachine {
            slot_consensus: HashMap::new(),
            slot_start: now,
            last_time_asked_for_votes: now,
            last_time_rebroadcast_votes: now,
            viewchain: Vec::new(),
            view_consumed_pow_hashes: Vec::new(),
            view_consumed_txs: Vec::new(),
            latest_finalized_block_height: 0,
            latest_non_cancellable_slot_height: 0,
            latest_view_height: 0,
            epoch_states: Vec::new(),
            pub_key: private_key.public_key(),
            private_key,
            local_validator_slot_state: HashMap::new(),
            mempool: Vec::new(),
            execution: Execution::new(),
            outbox: Vec::new(),
        }
    }

    /// Starts the view chain at the genesis block and registers the genesis epoch.
    pub fn init_state(&mut self, genesis_block: NotarizedBlock, genesis_epoch_state: EpochState)
        requires
            old(self).wf(),
            old(self).viewchain@.len() == 0,
            old(self).latest_finalized_block_height == 0,
            old(self).latest_view_height == 0,
            NotarizedBlock::wf_model(genesis_block@),
            genesis_epoch_state.wf(),
        ensures
            final(self).wf(),
            final(self).viewchain@.len() == 1,
            final(self).view_slot(0) == Some(SlotState::Block(genesis_block)),
            final(self).epoch_states@ == old(self).epoch_states@.push(genesis_epoch_state),
            final(self).latest_view_height == old(self).latest_view_height,
            final(self).latest_finalized_block_height == 0,
            final(self).latest_non_cancellable_slot_height == old(self).latest_non_cancellable_slot_height,
            final(self).slot_consensus == old(self).slot_consensus,
            final(self).local_validator_slot_state == old(self).local_validator_slot_state,
            final(self).mempool == old(self).mempool,
            final(self).outbox == old(self).outbox,
            final(self).pub_key == old(self).pub_key,
            final(self).private_key == old(self).private_key,
            final(self).execution == old(self).execution,
    {
        self.viewchain.push(SlotState::Block(genesis_block));
        self.epoch_states.push(genesis_epoch_state);
    }

    /// The tip of the view chain.
    pub fn latest_view_height(&self) -> (r: u64)
        ensures
            r == self.latest_view_height,
    {
        self.latest_view_height
    }

    /// The height of the last finalized block: the root of the view chain.
    pub fn latest_finalized_block_height(&self) -> (r: u64)
        ensures
            r == self.latest_finalized_block_height,
    {
        self.latest_finalized_block_height
    }

    /// The highest height whose outcome can no longer change.
    pub fn latest_non_cancellable_slot_height(&self) -> (r: u64)
        ensures
            r == self.latest_non_cancellable_slot_height,
    {
        self.latest_non_cancellable_slot_height
    }

    /// The outcome at height `h` in the view chain, if the chain reaches it.
    pub fn viewchain_slot(&self, h: u64) -> (r: Option<&SlotState>)
        ensures
            match r {
                Some(s) => self.view_slot(h as int) == Some(*s),
                None => self.view_slot(h as int) is None,
            },
    {
        if h >= self.latest_finalized_block_height && ((h - self.latest_finalized_block_height)
            as usize) < self.viewchain.len() && h - self.latest_finalized_block_height
            <= usize::MAX as u64 {
            Some(&self.viewchain[(h - self.latest_finalized_block_height) as usize])
        } else {
            None
        }
    }

    /// The hash of the nearest block below height `slot_height` in the view chain:
    /// the parent that a block at `slot_height` must name.
    pub fn select_parent(&self, slot_height: u64) -> (r: Option<Sha256Digest>)
        requires
            self.wf(),
        ensures
            match r {
                Some(d) => self.nearest_block_hash(slot_height - 1) == Some(d@),
                None => self.nearest_block_hash(slot_height - 1) is None,
            },
    {
        if slot_height == 0 {
            return None;
        }
        let mut h: u64 = slot_height - 1;
        loop
            invariant
                self.wf(),
                h < slot_height,
                self.nearest_block_hash(slot_height - 1) == self.nearest_block_hash(h as int),
            decreases h,
        {
            match self.viewchain_slot(h) {
                None => {
                    return None;
                },
                Some(SlotState::Block(b)) => {
                    assert(SlotState::wf_model(
                        self.viewchain@[h - self.latest_finalized_block_height]@,
                    ));
                    return Some(b.calculate_block_hash());
                },
                Some(SlotState::Nullification(_)) => {
                    if h == 0 {
                        return None;
                    }
                    h = h - 1;
                },
            }
        }
    }

    /// The leader of slot `height`, if an epoch with validators is known.
    pub fn get_leader_for_slot(&self, height: u64) -> (r: Option<ValidatorData>)
        ensures
            r == self.leader_of(height),
    {
        if self.epoch_states.len() == 0 {
            return None;
        }
        let epoch = &self.epoch_states[0];
        let n = epoch.validator_data.len() as u64;
        if n == 0 {
            return None;
        }
        Some(epoch.validator_data[(height % n) as usize])
    }

    /// Whether `public_key` leads slot `height`.
    pub fn is_leader_for_slot(&self, public_key: &PublicKey, height: u64) -> (r: bool)
        ensures
            r == (self.leader_of(height) matches Some(l) && l.pub_key == *public_key),
    {
        match self.get_leader_for_slot(height) {
            Some(leader) => leader.pub_key == *public_key,
            None => false,
        }
    }

    /// The validator that holds `public_key` in the epoch of `slot_height`, if any.
    pub fn get_validator_for_key(&self, public_key: &PublicKey, slot_height: u64) -> (r: Option<
        ValidatorData,
    >)
        ensures
            self.epoch_states@.len() == 0 ==> r is None,
            self.epoch_states@.len() > 0 ==> {
                let vs = self.epoch_states@[0].validator_data@;
                &&& key_position(vs, *public_key) >= 0 ==> r == Some(vs[key_position(vs, *public_key)])
                &&& key_position(vs, *public_key) < 0 ==> r is None
                &&& r is None <==> forall|j: int| 0 <= j < vs.len() ==> vs[j].pub_key != *public_key
            },
    {
        if self.epoch_states.len() == 0 {
            return None;
        }
        self.epoch_states[0].get_validator_by_key(public_key)
    }

    /// Checks a proposal: signed by the slot's leader and naming the nearest
    /// block below it as parent; or deferred while the parent is unknown.
    pub fn verify_block(&self, block: &Block) -> (r: BlockVerificationResult)
        requires
            self.wf(),
            Block::wf_model(block@),
        ensures
            r == self.verification_of(*block),
    {
        let leader_for_slot = match self.get_leader_for_slot(block.height) {
            None => return BlockVerificationResult::CouldNotVerifyDefer,
            Some(l) => l,
        };
        let previous_block_hash = match self.select_parent(block.height) {
            None => return BlockVerificationResult::CouldNotVerifyDefer,
            Some(p) => p,
        };
        let block_hash = block.calculate_block_hash();
        let signed_by_leader = leader_for_slot.pub_key.verify_signature_hash(
            block_hash,
            &block.slot_leader_signature,
        );
        let previous_block_hash_match = previous_block_hash == block.previous_block_hash;
        proof {
            if previous_block_hash@ == block.previous_block_hash@ {
                assert(previous_block_hash.data =~= block.previous_block_hash.data);
            }
        }
        BlockVerificationResult::Verifiable(signed_by_leader && previous_block_hash_match)
    }
}

impl ValidatorStateMachine {
    /// `b` is `a` with at most the slot table changed.
    pub open spec fn same_but_slots(a: ValidatorStateMachine, b: ValidatorStateMachine) -> bool {
        &&& b.slot_start == a.slot_start
        &&& b.last_time_asked_for_votes == a.last_time_asked_for_votes
        &&& b.last_time_rebroadcast_votes == a.last_time_rebroadcast_votes
        &&& b.viewchain == a.viewchain
        &&& b.view_consumed_pow_hashes == a.view_consumed_pow_hashes
        &&& b.view_consumed_txs == a.view_consumed_txs
        &&& b.latest_finalized_block_height == a.latest_finalized_block_height
        &&& b.latest_non_cancellable_slot_height == a.latest_non_cancellable_slot_height
        &&& b.latest_view_height == a.latest_view_height
        &&& b.epoch_states == a.epoch_states
        &&& b.pub_key == a.pub_key
        &&& b.private_key == a.private_key
        &&& b.local_validator_slot_state == a.local_validator_slot_state
        &&& b.mempool == a.mempool
        &&& b.execution == a.execution
        &&& b.outbox == a.outbox
    }

    /// `b` is `a` with at most the mempool, the consumed-hash lists and the action queue changed.
    pub open spec fn same_core(a: ValidatorStateMachine, b: ValidatorStateMachine) -> bool {
        &&& b.slot_consensus == a.slot_consensus
        &&& b.slot_start == a.slot_start
        &&& b.last_time_asked_for_votes == a.last_time_asked_for_votes
        &&& b.last_time_rebroadcast_votes == a.last_time_rebroadcast_votes
        &&& b.viewchain == a.viewchain
        &&& b.latest_finalized_block_height == a.latest_finalized_block_height
        &&& b.latest_non_cancellable_slot_height == a.latest_non_cancellable_slot_height
        &&& b.latest_view_height == a.latest_view_height
        &&& b.epoch_states == a.epoch_states
        &&& b.pub_key == a.pub_key
        &&& b.private_key == a.private_key
        &&& b.local_validator_slot_state == a.local_validator_slot_state
        &&& b.execution == a.execution
    }

    /// The view chain holds a block at `g` whose slot has since finalized a nullification.
    pub open spec fn reorg_at(self, g: u64) -> bool {
        &&& self.view_slot(g as int) matches Some(SlotState::Block(_))
        &&& self.slot_consensus@.contains_key(g)
        &&& self.slot_consensus@[g].consensus is FinalizedNullification
    }

    /// Some reversible height of the view chain must be rolled back.
    pub open spec fn has_reorg(self) -> bool {
        exists|g: u64|
            self.latest_non_cancellable_slot_height < g <= self.latest_view_height && #[trigger] self.reorg_at(g)
    }

    /// The view chain ends at `h` with a nullification carrying `votes`.
    pub open spec fn extended_with_nullification(self, h: u64, votes: Seq<crate::types::Notarization>) -> bool {
        &&& self.latest_view_height == h
        &&& self.view_slot(h as int) matches Some(SlotState::Nullification(n)) && n.height == h
            && n.votes@ == votes
    }

    /// The view chain ends at `h` with the block whose hash is `hash`.
    pub open spec fn extended_with_block(self, h: u64, hash: Seq<u8>) -> bool {
        &&& self.latest_view_height == h
        &&& self.view_slot(h as int) matches Some(SlotState::Block(b)) && b.height == h
            && b.spec_hash() == hash
    }

    /// The slot `h` holds the leader's block with hash `hash`, for height `h`,
    /// and it verifies against the view chain.
    pub open spec fn leader_block_ready(self, h: u64, hash: Seq<u8>) -> bool {
        &&& self.slot_consensus@.contains_key(h)
        &&& self.slot_consensus@[h].first_leader_signed_block_received matches Some(p) && p.spec_hash()
            == hash && p.height == h && self.verification_of(p) == BlockVerificationResult::Verifiable(
            true,
        )
    }

    /// No leader's block is kept at slot `h`, but a deferred block there
    /// hashes to `hash` and verifies, and every such block is for height `h`.
    pub open spec fn deferred_block_ready(self, h: u64, hash: Seq<u8>) -> bool {
        &&& self.slot_consensus@.contains_key(h)
        &&& self.slot_consensus@[h].first_leader_signed_block_received is None
        &&& {
            let u = self.slot_consensus@[h].unverified_blocks_received@;
            &&& exists|i: int| 0 <= i < u.len() && #[trigger] self.verifies_with_hash(u[i], hash)
            &&& forall|i: int| 0 <= i < u.len() && #[trigger] self.verifies_with_hash(u[i], hash) ==> u[i].height == h
        }
    }

    /// `b` hashes to `hash` and verifies against the view chain.
    pub open spec fn verifies_with_hash(self, b: Block, hash: Seq<u8>) -> bool {
        b.spec_hash() == hash && self.verification_of(b) == BlockVerificationResult::Verifiable(true)
    }

    /// The least height of the view chain that must be rolled back.
    pub open spec fn first_reorg(self) -> u64 {
        choose|g: u64|
            self.latest_non_cancellable_slot_height < g <= self.latest_view_height && self.reorg_at(g)
                && forall|g2: u64|
                self.latest_non_cancellable_slot_height < g2 < g ==> !#[trigger] self.reorg_at(g2)
    }

    /// This node's key is a validator's in the current epoch.
    pub open spec fn holds_stake(self) -> bool {
        self.current_epoch() matches Some(e) && exists|i: int|
            0 <= i < e.validator_data@.len() && e.validator_data@[i].pub_key == self.pub_key
    }

    /// The verdict recorded at height `h` (none for an untouched slot).
    pub open spec fn verdict_at(self, h: u64) -> Consensus {
        if self.slot_consensus@.contains_key(h) {
            self.slot_consensus@[h].consensus
        } else {
            Consensus::Undecided
        }
    }

    /// The validator that cast a vote, if the current epoch has one with its index.
    pub open spec fn voter(self, validator_index: u64) -> Option<ValidatorData> {
        match self.current_epoch() {
            None => None,
            Some(e) => if validator_index < e.validator_data@.len() {
                Some(e.validator_data@[validator_index as int])
            } else {
                None
            },
        }
    }

    /// Why a block vote is refused before it reaches its slot, if it is.
    pub open spec fn block_vote_rejection(self, vote: BlockVote) -> Option<HandleBlockVoteResult> {
        if vote.slot_height <= self.latest_finalized_block_height {
            Some(HandleBlockVoteResult::ErrorSlotAlreadyFinalized)
        } else if self.current_epoch() is None {
            Some(HandleBlockVoteResult::ErrorEpochStateDoesNotYetExistForSlot)
        } else if self.voter(vote.validator_index) is None {
            Some(HandleBlockVoteResult::ErrorCouldNotFindValidatorIndex)
        } else if !ed25519_accepts(
            self.voter(vote.validator_index)->0.pub_key@,
            vote.block_hash@,
            vote.signature@,
        ) {
            Some(HandleBlockVoteResult::ErrorInvalidSignature)
        } else {
            None
        }
    }

    /// Why a null vote is refused before it reaches its slot, if it is.
    pub open spec fn null_vote_rejection(self, vote: NullVote) -> Option<HandleNullificationVoteResult> {
        if vote.slot_height <= self.latest_finalized_block_height {
            Some(HandleNullificationVoteResult::ErrorSlotAlreadyFinalized)
        } else if self.current_epoch() is None {
            Some(HandleNullificationVoteResult::ErrorEpochStateDoesNotYetExistForSlot)
        } else if self.voter(vote.validator_index) is None {
            Some(HandleNullificationVoteResult::ErrorCouldNotFindValidatorIndex)
        } else if !ed25519_accepts(
            self.voter(vote.validator_index)->0.pub_key@,
            null_hash_of(vote.slot_height),
            vote.signature@,
        ) {
            Some(HandleNullificationVoteResult::ErrorInvalidSignature)
        } else {
            None
        }
    }

    /// What applying `vote` to the slot table of `o` gives, as table `slots`
    /// and result `r`: the refusal and no change, or the vote's effect on its slot.
    pub open spec fn block_vote_applied(
        o: ValidatorStateMachine,
        slots: Map<u64, SlotConsensusState>,
        vote: BlockVote,
        r: HandleBlockVoteResult,
    ) -> bool {
        match o.block_vote_rejection(vote) {
            Some(e) => r == e && slots == o.slot_consensus@,
            None => {
                let h = vote.slot_height;
                let v = o.voter(vote.validator_index)->0;
                let total = o.current_epoch()->0.total_validator_stake;
                &&& slots.contains_key(h)
                &&& slots == o.slot_consensus@.insert(h, slots[h])
                &&& o.slot_consensus@.contains_key(h) ==> block_vote_effect(
                    o.slot_consensus@[h],
                    slots[h],
                    vote.validator_index,
                    vote.block_hash,
                    vote.signature,
                    v.stake,
                    total,
                    r,
                )
                &&& !o.slot_consensus@.contains_key(h) ==> exists|f: SlotConsensusState|
                    is_fresh_slot(f, h) && block_vote_effect(
                        f,
                        slots[h],
                        vote.validator_index,
                        vote.block_hash,
                        vote.signature,
                        v.stake,
                        total,
                        r,
                    )
            },
        }
    }

    /// What applying the null `vote` to the slot table of `o` gives.
    pub open spec fn null_vote_applied(
        o: ValidatorStateMachine,
        slots: Map<u64, SlotConsensusState>,
        vote: NullVote,
        r: HandleNullificationVoteResult,
    ) -> bool {
        match o.null_vote_rejection(vote) {
            Some(e) => r == e && slots == o.slot_consensus@,
            None => {
                let h = vote.slot_height;
                let v = o.voter(vote.validator_index)->0;
                let total = o.current_epoch()->0.total_validator_stake;
                &&& slots.contains_key(h)
                &&& slots == o.slot_consensus@.insert(h, slots[h])
                &&& o.slot_consensus@.contains_key(h) ==> null_vote_effect(
                    o.slot_consensus@[h],
                    slots[h],
                    vote.validator_index,
                    vote.signature,
                    v.stake,
                    total,
                    r,
                )
                &&& !o.slot_consensus@.contains_key(h) ==> exists|f: SlotConsensusState|
                    is_fresh_slot(f, h) && null_vote_effect(
                        f,
                        slots[h],
                        vote.validator_index,
                        vote.signature,
                        v.stake,
                        total,
                        r,
                    )
            },
        }
    }

    /// This node's validator entry in the current epoch (where it has one).
    pub open spec fn own_validator(self) -> ValidatorData {
        self.epoch_states@[0].validator_data@[key_position(
            self.epoch_states@[0].validator_data@,
            self.pub_key,
        )]
    }

    /// `f` is `o` after this node cast its null vote at `h` as validator `i`:
    /// the vote, signed over the null hash of `h`, is queued for broadcast as the
    /// one new action and applied to the slot table.
    pub open spec fn cast_null(o: ValidatorStateMachine, f: ValidatorStateMachine, h: u64, i: u64) -> bool {
        &&& f.outbox@.len() == o.outbox@.len() + 1
        &&& f.outbox@.drop_last() == o.outbox@
        &&& f.outbox@.last() matches Action::BroadcastNullVote(x) && x.slot_height == h
            && x.validator_index == i && x.signature@ == ed25519_signature_of(
            o.private_key.seed@,
            null_hash_of(h),
        ) && exists|r: HandleNullificationVoteResult| Self::null_vote_applied(o, f.slot_consensus@, x, r)
    }

    /// `f` is `o` after this node cast its vote for the block with hash `d` at
    /// `h` as validator `i`: queued for broadcast as the one new action and applied.
    pub open spec fn cast_block(
        o: ValidatorStateMachine,
        f: ValidatorStateMachine,
        h: u64,
        i: u64,
        d: Seq<u8>,
    ) -> bool {
        &&& f.outbox@.len() == o.outbox@.len() + 1
        &&& f.outbox@.drop_last() == o.outbox@
        &&& f.outbox@.last() matches Action::BroadcastBlockVote(x) && x.slot_height == h
            && x.validator_index == i && x.block_hash@ == d && x.signature@ == ed25519_signature_of(
            o.private_key.seed@,
            d,
        ) && exists|r: HandleBlockVoteResult| Self::block_vote_applied(o, f.slot_consensus@, x, r)
    }

    /// What a validator's step does at the next height `h` at time `now`, from
    /// `o` to `f`, where the node holds stake (as validator `i`):
    /// - after a block vote, once the slot is implicitly nullified, it casts a
    ///   null vote and its vote state turns null; otherwise nothing changes;
    /// - without a vote, once the proposal deadline has passed, it casts a null vote;
    /// - without a vote before the deadline, with the leader's verified proposal
    ///   `p` at hand, it votes for `p`'s hash;
    /// - after a null vote, nothing changes.
    pub open spec fn validator_voted(o: ValidatorStateMachine, f: ValidatorStateMachine, now: u64) -> bool {
        let h = (o.latest_view_height + 1) as u64;
        let i = o.own_validator().validator_index;
        let vote = o.local_vote(h);
        let deadline = now >= o.slot_start && now - o.slot_start >= PROPOSAL_DEADLINE_MS;
        let unchanged = f.local_vote(h) == vote && f.outbox == o.outbox && f.slot_consensus
            == o.slot_consensus;
        o.holds_stake() ==> {
            &&& vote is VotedForBlock && o.verdict_at(h) is ImplicitNullification ==> f.local_vote(h)
                is VotedForNullification && Self::cast_null(o, f, h, i)
            &&& vote is VotedForBlock && !(o.verdict_at(h) is ImplicitNullification) ==> unchanged
            &&& vote is NoVoteYet && deadline ==> f.local_vote(h) is VotedForNullification
                && Self::cast_null(o, f, h, i)
            &&& vote is NoVoteYet && !deadline && o.slot_consensus@.contains_key(h)
                && o.slot_consensus@[h].first_leader_signed_block_received is Some ==> {
                let p = o.slot_consensus@[h].first_leader_signed_block_received->0;
                &&& f.local_vote(h) is VotedForBlock
                &&& f.local_vote(h)->VotedForBlock_0@ == p.spec_hash()
                &&& Self::cast_block(o, f, h, i, p.spec_hash())
            }
            &&& vote is VotedForNullification ==> unchanged
        }
    }

    /// A transaction that the view chain has consumed neither by hash nor by proof of work.
    pub open spec fn eligible(self, t: crate::types::TransactionModel) -> bool {
        !holds_digest(self.view_consumed_pow_hashes@, pow_hash_of(t)) && !holds_digest(
            self.view_consumed_txs@,
            txhash_of(t),
        )
    }

    /// The eligible transactions of `pool`, in its order.
    pub open spec fn eligible_txs(self, pool: Seq<Transaction>) -> Seq<crate::types::TransactionModel> {
        keep_where(models(pool), |t: crate::types::TransactionModel| self.eligible(t))
    }

    /// `b` is this node's proposal for height `h`: on the nearest block below
    /// it, with the mempool's eligible transactions in mempool order (which is
    /// the order of their hashes), signed by this node.
    pub open spec fn is_proposal(self, b: Block, h: u64) -> bool {
        &&& b.height == h
        &&& Block::wf_model(b@)
        &&& self.nearest_block_hash(h - 1) == Some(b.previous_block_hash@)
        &&& b.slot_leader_signature@ == ed25519_signature_of(self.private_key.seed@, b.spec_hash())
        &&& models(b.transactions@) == self.eligible_txs(self.mempool@)
        &&& distinct_txhashes(models(b.transactions@))
        &&& sorted_txhashes(models(b.transactions@))
        &&& ed25519_accepts(self.pub_key@, b.spec_hash(), b.slot_leader_signature@)
    }

    /// This node's own progress at slot `h`.
    pub open spec fn local_slot_state(self, h: u64) -> ValidatorSlotState {
        if self.local_validator_slot_state@.contains_key(h) {
            self.local_validator_slot_state@[h]
        } else {
            ValidatorSlotState { vote_state: VoteState::NoVoteYet, leader_state: LeaderState::HasNotProposedBlock }
        }
    }

    /// What the leader's step does from `o` to `f` at the next height `h`: if
    /// this node leads `h`, has not proposed yet and the view chain has a block
    /// below `h`, it marks the proposal made and queues its proposal for
    /// broadcast as the one new action; otherwise nothing changes.
    pub open spec fn leader_proposed(o: ValidatorStateMachine, f: ValidatorStateMachine) -> bool {
        let h = (o.latest_view_height + 1) as u64;
        let proposes = (o.leader_of(h) matches Some(l) && l.pub_key == o.pub_key)
            && o.local_slot_state(h).leader_state is HasNotProposedBlock && o.nearest_block_hash(h - 1)
            is Some;
        &&& forall|g: u64| #[trigger] f.local_vote(g) == o.local_vote(g)
        &&& proposes ==> {
            &&& f.local_slot_state(h).leader_state is HasProposedBlock
            &&& f.outbox@.len() == o.outbox@.len() + 1
            &&& f.outbox@.drop_last() == o.outbox@
            &&& f.outbox@.last() matches Action::BroadcastBlockProposal(b) && o.is_proposal(b, h)
        }
        &&& !proposes ==> f.outbox == o.outbox && f.local_validator_slot_state
            == o.local_validator_slot_state && f.slot_consensus == o.slot_consensus
    }

    /// Takes slot `h` out of the table, or a fresh one if it has none.
    fn take_slot(&mut self, h: u64) -> (r: SlotConsensusState)
        ensures
            final(self).slot_consensus@ == old(self).slot_consensus@.remove(h),
            old(self).slot_consensus@.contains_key(h) ==> r == old(self).slot_consensus@[h],
            !old(self).slot_consensus@.contains_key(h) ==> is_fresh_slot(r, h),
            Self::same_but_slots(*old(self), *final(self)),
    {
        match self.slot_consensus.remove(&h) {
            Some(s) => s,
            None => SlotConsensusState::new(h),
        }
    }

    /// Applies a block vote: refused for a finalized slot, without an epoch, for
    /// an unknown validator or a bad signature; otherwise recorded at its slot
    /// unless that validator has voted there already.
    pub fn handle_block_vote(&mut self, block_vote: BlockVote) -> (r: HandleBlockVoteResult)
        requires
            old(self).wf(),
        ensures
            final(self).wf(),
            Self::block_vote_applied(*old(self), final(self).slot_consensus@, block_vote, r),
            old(self).block_vote_rejection(block_vote) is Some ==> *final(self) == *old(self),
            Self::same_but_slots(*old(self), *final(self)),
    {
        let slot_height = block_vote.slot_height;
        if slot_height <= self.latest_finalized_block_height {
            return HandleBlockVoteResult::ErrorSlotAlreadyFinalized;
        }
        if self.epoch_states.len() == 0 {
            return HandleBlockVoteResult::ErrorEpochStateDoesNotYetExistForSlot;
        }
        let total = self.epoch_states[0].total_validator_stake;
        let validator = match self.epoch_states[0].get_validator_data(block_vote.validator_index) {
            None => return HandleBlockVoteResult::ErrorCouldNotFindValidatorIndex,
            Some(v) => v,
        };
        if !validator.pub_key.verify_signature_hash(block_vote.block_hash, &block_vote.signature) {
            return HandleBlockVoteResult::ErrorInvalidSignature;
        }
        let ghost old_self = *self;
        let mut slot = self.take_slot(slot_height);
        let ghost taken = slot;
        let r = slot.apply_block_vote(
            block_vote.validator_index,
            block_vote.block_hash,
            block_vote.signature,
            validator.stake,
            total,
        );
        proof {
            assert(self.epoch_states@[0].wf());
            if !old_self.slot_consensus@.contains_key(slot_height) {
                assert(is_fresh_slot(taken, slot_height));
            }
            lemma_block_vote_accounted(
                taken,
                slot,
                block_vote.validator_index,
                block_vote.block_hash,
                block_vote.signature,
                old_self.voter_weights(),
                total,
                r,
            );
        }
        self.slot_consensus.insert(slot_height, slot);
        proof {
            assert(self.slot_consensus@ =~= old_self.slot_consensus@.insert(slot_height, slot));
            assert(self.slot_consensus@[slot_height] == slot);
            if !old_self.slot_consensus@.contains_key(slot_height) {
                assert(is_fresh_slot(taken, slot_height));
            }
        }
        r
    }

    /// Applies a null vote: refused as a block vote is; otherwise recorded at its
    /// slot, taking back an earlier block vote, unless it voted null there already.
    pub fn handle_nullification_vote(&mut self, null_vote: NullVote) -> (r:
        HandleNullificationVoteResult)
        requires
            old(self).wf(),
        ensures
            final(self).wf(),
            Self::null_vote_applied(*old(self), final(self).slot_consensus@, null_vote, r),
            old(self).null_vote_rejection(null_vote) is Some ==> *final(self) == *old(self),
            Self::same_but_slots(*old(self), *final(self)),
    {
        let slot_height = null_vote.slot_height;
        if slot_height <= self.latest_finalized_block_height {
            return HandleNullificationVoteResult::ErrorSlotAlreadyFinalized;
        }
        if self.epoch_states.len() == 0 {
            return HandleNullificationVoteResult::ErrorEpochStateDoesNotYetExistForSlot;
        }
        let total = self.epoch_states[0].total_validator_stake;
        let validator = match self.epoch_states[0].get_validator_data(null_vote.validator_index) {
            None => return HandleNullificationVoteResult::ErrorCouldNotFindValidatorIndex,
            Some(v) => v,
        };
        let null_hash = calculate_null_hash(slot_height);
        if !validator.pub_key.verify_signature_hash(null_hash, &null_vote.signature) {
            return HandleNullificationVoteResult::ErrorInvalidSignature;
        }
        let ghost old_self = *self;
        let mut slot = self.take_slot(slot_height);
        let ghost taken = slot;
        let r = slot.apply_null_vote(
            null_vote.validator_index,
            null_vote.signature,
            validator.stake,
            total,
        );
        proof {
            assert(self.epoch_states@[0].wf());
            if !old_self.slot_consensus@.contains_key(slot_height) {
                assert(is_fresh_slot(taken, slot_height));
            }
            lemma_null_vote_accounted(
                taken,
                slot,
                null_vote.validator_index,
                null_vote.signature,
                old_self.voter_weights(),
                total,
                r,
            );
        }
        self.slot_consensus.insert(slot_height, slot);
        proof {
            assert(self.slot_consensus@ =~= old_self.slot_consensus@.insert(slot_height, slot));
            assert(self.slot_consensus@[slot_height] == slot);
            if !old_self.slot_consensus@.contains_key(slot_height) {
                assert(is_fresh_slot(taken, slot_height));
            }
        }
        r
    }
}

/// `f` is slot `o` with a proposal kept: as the leader's block when it verified,
/// among those to verify later when it was deferred. Its votes are untouched.
pub open spec fn proposal_kept(o: SlotConsensusState, f: SlotConsensusState, block: Block, deferred: bool) -> bool {
    &&& f.block_candidates == o.block_candidates
    &&& f.null_stake == o.null_stake
    &&& f.nullification_votes == o.nullification_votes
    &&& f.slot_height == o.slot_height
    &&& f.consumed_validator_indexes == o.consumed_validator_indexes
    &&& f.consensus == o.consensus
    &&& if deferred {
        &&& f.first_leader_signed_block_received == o.first_leader_signed_block_received
        &&& f.unverified_blocks_received@ == o.unverified_blocks_received@.push(block)
    } else {
        &&& f.first_leader_signed_block_received == Some(block)
        &&& f.unverified_blocks_received == o.unverified_blocks_received
    }
}

impl ValidatorStateMachine {
    /// Takes in a block proposal: ignored at a finalized height or when it fails
    /// verification; kept as the slot's leader block when it verifies; kept to be
    /// verified again later when its parent is not known yet.
    pub fn handle_block_proposal_received(&mut self, block: Block)
        requires
            old(self).wf(),
            Block::wf_model(block@),
        ensures
            final(self).wf(),
            block.height <= old(self).latest_finalized_block_height || old(self).verification_of(
                block,
            ) == BlockVerificationResult::Verifiable(false) ==> *final(self) == *old(self),
            block.height > old(self).latest_finalized_block_height && old(self).verification_of(
                block,
            ) != BlockVerificationResult::Verifiable(false) ==> {
                let h = block.height;
                let deferred = old(self).verification_of(block)
                    == BlockVerificationResult::CouldNotVerifyDefer;
                &&& final(self).slot_consensus@ == old(self).slot_consensus@.insert(
                    h,
                    final(self).slot_consensus@[h],
                )
                &&& Self::same_but_slots(*old(self), *final(self))
                &&& old(self).slot_consensus@.contains_key(h) ==> proposal_kept(
                    old(self).slot_consensus@[h],
                    final(self).slot_consensus@[h],
                    block,
                    deferred,
                )
                &&& !old(self).slot_consensus@.contains_key(h) ==> exists|f: SlotConsensusState|
                    is_fresh_slot(f, h) && proposal_kept(f, final(self).slot_consensus@[h], block, deferred)
            },
    {
        if block.height <= self.latest_finalized_block_height {
            return;
        }
        let verification = self.verify_block(&block);
        let deferred = match verification {
            BlockVerificationResult::CouldNotVerifyDefer => true,
            BlockVerificationResult::Verifiable(true) => false,
            BlockVerificationResult::Verifiable(false) => {
                return;
            },
        };
        let h = block.height;
        let ghost old_self = *self;
        let mut slot = self.take_slot(h);
        let ghost taken = slot;
        if deferred {
            slot.unverified_blocks_received.push(block);
        } else {
            slot.first_leader_signed_block_received = Some(block);
        }
        proof {
            assert(proposal_kept(taken, slot, block, deferred));
            assert forall|i: int| 0 <= i < slot.unverified_blocks_received@.len() implies Block::wf_model(
                #[trigger] slot.unverified_blocks_received@[i]@,
            ) by {
                if deferred && i < taken.unverified_blocks_received@.len() {
                    assert(slot.unverified_blocks_received@[i] == taken.unverified_blocks_received@[i]);
                }
            }
        }
        self.slot_consensus.insert(h, slot);
        proof {
            assert(self.slot_consensus@ =~= old_self.slot_consensus@.insert(h, slot));
            assert(self.slot_consensus@[h] == slot);
        }
    }

    /// The proposal to vote for at slot `height`: the leader's block when one
    /// verified on arrival; else the first kept block that verifies now.
    pub fn get_slot_block_proposal(&self, height: u64) -> (r: Option<Block>)
        requires
            self.wf(),
        ensures
            !self.slot_consensus@.contains_key(height) ==> r is None,
            self.slot_consensus@.contains_key(height) ==> {
                let s = self.slot_consensus@[height];
                match s.first_leader_signed_block_received {
                    Some(b) => r matches Some(x) && x@ == b@,
                    None => match r {
                        Some(x) => exists|i: int|
                            0 <= i < s.unverified_blocks_received@.len()
                                && s.unverified_blocks_received@[i]@ == x@ && self.verification_of(
                                s.unverified_blocks_received@[i],
                            ) == BlockVerificationResult::Verifiable(true),
                        None => forall|i: int|
                            0 <= i < s.unverified_blocks_received@.len() ==> self.verification_of(
                                #[trigger] s.unverified_blocks_received@[i],
                            ) != BlockVerificationResult::Verifiable(true),
                    },
                }
            },
    {
        let s = match self.slot_consensus.get(&height) {
            None => return None,
            Some(s) => s,
        };
        match &s.first_leader_signed_block_received {
            Some(b) => {
                return Some(b.duplicate());
            },
            None => {},
        }
        let mut i: usize = 0;
        while i < s.unverified_blocks_received.len()
            invariant
                self.wf(),
                self.slot_consensus@.contains_key(height),
                *s == self.slot_consensus@[height],
                s.first_leader_signed_block_received is None,
                i <= s.unverified_blocks_received@.len(),
                forall|j: int|
                    0 <= j < i ==> self.verification_of(#[trigger] s.unverified_blocks_received@[j])
                        != BlockVerificationResult::Verifiable(true),
            decreases s.unverified_blocks_received@.len() - i,
        {
            let b = &s.unverified_blocks_received[i];
            assert(proposals_wf(self.slot_consensus@[height]));
            assert(Block::wf_model(s.unverified_blocks_received@[i as int]@));
            match self.verify_block(b) {
                BlockVerificationResult::Verifiable(true) => {
                    let x = b.duplicate();
                    assert(0 <= i < s.unverified_blocks_received@.len()
                        && s.unverified_blocks_received@[i as int]@ == x@ && self.verification_of(
                        s.unverified_blocks_received@[i as int],
                    ) == BlockVerificationResult::Verifiable(true));
                    return Some(x);
                },
                _ => {},
            }
            i = i + 1;
        }
        None
    }
}

/// Milliseconds a validator waits for a proposal before voting null.
pub const PROPOSAL_DEADLINE_MS: u64 = 2000;

/// Milliseconds without progress after which a slot counts as stalled.
pub const RECOVERY_AFTER_MS: u64 = 3000;

/// Milliseconds between two rounds of recovery requests, and of vote rebroadcasts.
pub const RECOVERY_INTERVAL_MS: u64 = 2000;

/// The most transactions the mempool holds.
pub const MEMPOOL_CAPACITY: usize = 4294967295;

impl ValidatorStateMachine {
    /// Takes the queued actions, oldest first.
    pub fn take_actions(&mut self) -> (r: Vec<Action>)
        ensures
            r@ == old(self).outbox@,
            final(self).outbox@.len() == 0,
            final(self).slot_consensus == old(self).slot_consensus,
            final(self).viewchain == old(self).viewchain,
            final(self).mempool == old(self).mempool,
            old(self).wf() ==> final(self).wf(),
    {
        let mut out: Vec<Action> = Vec::new();
        std::mem::swap(&mut out, &mut self.outbox);
        out
    }

    /// This node's own state at slot `height` (no vote, no proposal if untouched).
    fn local_state(&self, height: u64) -> (r: ValidatorSlotState)
        ensures
            self.local_validator_slot_state@.contains_key(height) ==> r
                == self.local_validator_slot_state@[height],
            !self.local_validator_slot_state@.contains_key(height) ==> r == (ValidatorSlotState {
                vote_state: VoteState::NoVoteYet,
                leader_state: LeaderState::HasNotProposedBlock,
            }),
    {
        match self.local_validator_slot_state.get(&height) {
            Some(s) => *s,
            None => ValidatorSlotState {
                vote_state: VoteState::NoVoteYet,
                leader_state: LeaderState::HasNotProposedBlock,
            },
        }
    }

    fn set_local_state(&mut self, height: u64, state: ValidatorSlotState)
        requires
            old(self).wf(),
        ensures
            final(self).wf(),
            final(self).local_validator_slot_state@ == old(self).local_validator_slot_state@.insert(
                height,
                state,
            ),
            final(self).slot_consensus == old(self).slot_consensus,
            final(self).viewchain == old(self).viewchain,
            final(self).latest_view_height == old(self).latest_view_height,
            final(self).latest_finalized_block_height == old(self).latest_finalized_block_height,
            final(self).latest_non_cancellable_slot_height == old(self).latest_non_cancellable_slot_height,
            final(self).epoch_states == old(self).epoch_states,
            final(self).slot_start == old(self).slot_start,
            final(self).pub_key == old(self).pub_key,
            final(self).private_key == old(self).private_key,
            final(self).mempool == old(self).mempool,
            final(self).outbox == old(self).outbox,
    {
        self.local_validator_slot_state.insert(height, state);
    }

    /// The verdict recorded at slot `height` (none for an untouched slot).
    fn slot_verdict(&self, height: u64) -> (r: Consensus)
        ensures
            self.slot_consensus@.contains_key(height) ==> crate::consensus::same_consensus(
                self.slot_consensus@[height].consensus,
                r,
            ),
            !self.slot_consensus@.contains_key(height) ==> r is Undecided,
    {
        match self.slot_consensus.get(&height) {
            Some(s) => s.consensus.duplicate(),
            None => Consensus::Undecided,
        }
    }

    /// Recomputes the view chain's consumed lists: the proof-of-work hashes and
    /// the hashes of the transactions in its blocks, in chain order.
    fn calculate_view_seen_pow_hash(&mut self)
        requires
            old(self).wf(),
        ensures
            final(self).wf(),
            final(self).viewchain == old(self).viewchain,
            final(self).slot_consensus == old(self).slot_consensus,
            final(self).latest_view_height == old(self).latest_view_height,
            final(self).latest_finalized_block_height == old(self).latest_finalized_block_height,
            final(self).latest_non_cancellable_slot_height == old(self).latest_non_cancellable_slot_height,
            final(self).epoch_states == old(self).epoch_states,
            final(self).local_validator_slot_state == old(self).local_validator_slot_state,
            final(self).mempool == old(self).mempool,
            final(self).slot_start == old(self).slot_start,
            final(self).outbox == old(self).outbox,
            final(self).execution == old(self).execution,
            final(self).pub_key == old(self).pub_key,
            final(self).private_key == old(self).private_key,
            digest_views(final(self).view_consumed_pow_hashes@) == chain_pow_hashes(old(self).viewchain@),
            digest_views(final(self).view_consumed_txs@) == chain_txhashes(old(self).viewchain@),
    {
        let mut pows: Vec<Sha256Digest> = Vec::new();
        let mut txs: Vec<Sha256Digest> = Vec::new();
        let mut i: usize = 0;
        while i < self.viewchain.len()
            invariant
                self.wf(),
                i <= self.viewchain@.len(),
                digest_views(pows@) == chain_pow_hashes(self.viewchain@.take(i as int)),
                digest_views(txs@) == chain_txhashes(self.viewchain@.take(i as int)),
            decreases self.viewchain@.len() - i,
        {
            assert(SlotState::wf_model(self.viewchain@[i as int]@));
            assert(self.viewchain@.take(i + 1).drop_last() =~= self.viewchain@.take(i as int));
            assert(self.viewchain@.take(i + 1).last() == self.viewchain@[i as int]);
            match &self.viewchain[i] {
                SlotState::Block(b) => {
                    let ghost p0 = digest_views(pows@);
                    let ghost t0 = digest_views(txs@);
                    let mut j: usize = 0;
                    while j < b.transactions.len()
                        invariant
                            j <= b.transactions@.len(),
                            NotarizedBlock::wf_model(b@),
                            digest_views(pows@) == p0 + models(b.transactions@).take(j as int).map_values(
                                |t: crate::types::TransactionModel| pow_hash_of(t),
                            ),
                            digest_views(txs@) == t0 + models(b.transactions@).take(j as int).map_values(
                                |t: crate::types::TransactionModel| txhash_of(t),
                            ),
                        decreases b.transactions@.len() - j,
                    {
                        assert(Transaction::wf_model(models(b.transactions@)[j as int]));
                        let t = &b.transactions[j];
                        let ph = t.calculate_pow_hash();
                        let th = t.calculate_txhash();
                        let ghost pb = pows@;
                        let ghost tb = txs@;
                        pows.push(ph);
                        txs.push(th);
                        assert(digest_views(pows@) =~= digest_views(pb).push(ph@));
                        assert(digest_views(txs@) =~= digest_views(tb).push(th@));
                        assert(models(b.transactions@).take(j + 1) =~= models(b.transactions@).take(j as int).push(t@));
                        assert(models(b.transactions@).take(j + 1).map_values(
                            |t: crate::types::TransactionModel| pow_hash_of(t),
                        ) =~= models(b.transactions@).take(j as int).map_values(
                            |t: crate::types::TransactionModel| pow_hash_of(t),
                        ).push(pow_hash_of(t@)));
                        assert(models(b.transactions@).take(j + 1).map_values(
                            |t: crate::types::TransactionModel| txhash_of(t),
                        ) =~= models(b.transactions@).take(j as int).map_values(
                            |t: crate::types::TransactionModel| txhash_of(t),
                        ).push(txhash_of(t@)));
                        assert(digest_views(pows@) =~= p0 + models(b.transactions@).take(j + 1).map_values(
                            |t: crate::types::TransactionModel| pow_hash_of(t),
                        ));
                        assert(digest_views(txs@) =~= t0 + models(b.transactions@).take(j + 1).map_values(
                            |t: crate::types::TransactionModel| txhash_of(t),
                        ));
                        j = j + 1;
                    }
                    assert(models(b.transactions@).take(j as int) =~= models(b.transactions@));
                },
                SlotState::Nullification(_) => {
                    assert(digest_views(pows@) =~= chain_pow_hashes(self.viewchain@.take(i + 1)));
                    assert(digest_views(txs@) =~= chain_txhashes(self.viewchain@.take(i + 1)));
                },
            }
            i = i + 1;
        }
        assert(self.viewchain@.take(i as int) =~= self.viewchain@);
        self.view_consumed_pow_hashes = pows;
        self.view_consumed_txs = txs;
    }

    /// The block `block_hash` kept at slot `height`: the leader's block if it has
    /// that hash, else a kept block that verifies now and has that hash.
    fn get_block(&self, height: u64, block_hash: &Sha256Digest) -> (r: Option<Block>)
        requires
            self.wf(),
        ensures
            r matches Some(b) ==> Block::wf_model(b@) && b.spec_hash() == block_hash@,
            self.slot_consensus@.contains_key(height) && (self.slot_consensus@[height].first_leader_signed_block_received matches Some(
                p,
            ) && p.spec_hash() == block_hash@) ==> (r matches Some(b) && b@ == self.slot_consensus@[height].first_leader_signed_block_received->0@),
            self.deferred_block_ready(height, block_hash@) ==> (r matches Some(b) && exists|i: int|
                0 <= i < self.slot_consensus@[height].unverified_blocks_received@.len() && b@
                    == self.slot_consensus@[height].unverified_blocks_received@[i]@
                    && self.verifies_with_hash(self.slot_consensus@[height].unverified_blocks_received@[i], block_hash@)),
    {
        let s = match self.slot_consensus.get(&height) {
            None => return None,
            Some(s) => s,
        };
        assert(proposals_wf(self.slot_consensus@[height]));
        match &s.first_leader_signed_block_received {
            Some(b) => {
                let d = b.calculate_block_hash();
                proof {
                    if d@ == block_hash@ {
                        assert(d.data =~= block_hash.data);
                    }
                }
                if d == *block_hash {
                    let r = b.duplicate();
                    return Some(r);
                }
                return None;
            },
            None => {},
        }
        let mut i: usize = 0;
        while i < s.unverified_blocks_received.len()
            invariant
                self.wf(),
                self.slot_consensus@.contains_key(height),
                *s == self.slot_consensus@[height],
                s.first_leader_signed_block_received is None,
                i <= s.unverified_blocks_received@.len(),
                forall|k: int| 0 <= k < i ==> !self.verifies_with_hash(#[trigger] s.unverified_blocks_received@[k], block_hash@),
            decreases s.unverified_blocks_received@.len() - i,
        {
            let b = &s.unverified_blocks_received[i];
            assert(proposals_wf(self.slot_consensus@[height]));
            assert(Block::wf_model(s.unverified_blocks_received@[i as int]@));
            if let BlockVerificationResult::Verifiable(true) = self.verify_block(b) {
                let d = b.calculate_block_hash();
                proof {
                    if d@ == block_hash@ {
                        assert(d.data =~= block_hash.data);
                    }
                }
                if d == *block_hash {
                    return Some(b.duplicate());
                }
            }
            i = i + 1;
        }
        None
    }

    /// Extends the view chain at `height` with the notarized block, when the
    /// block is known, is for that height and verifies; asks peers for blocks
    /// when it is not known.
    fn add_block_to_viewchain(&mut self, height: u64, notarization: &BlockNotarization, now: u64)
        requires
            old(self).wf(),
            old(self).viewchain@.len() > 0,
            height == old(self).latest_view_height + 1,
        ensures
            final(self).wf(),
            final(self).latest_finalized_block_height == old(self).latest_finalized_block_height,
            final(self).latest_non_cancellable_slot_height == old(self).latest_non_cancellable_slot_height,
            final(self).latest_view_height == old(self).latest_view_height
                || final(self).latest_view_height == height,
            final(self).viewchain@.len() > 0,
            final(self).epoch_states == old(self).epoch_states,
            final(self).local_validator_slot_state == old(self).local_validator_slot_state,
            final(self).latest_view_height == old(self).latest_view_height ==> final(self).viewchain
                == old(self).viewchain,
            final(self).latest_view_height == height ==> {
                &&& final(self).viewchain@.len() == old(self).viewchain@.len() + 1
                &&& final(self).viewchain@.drop_last() == old(self).viewchain@
                &&& final(self).viewchain@.last() matches SlotState::Block(b) && b.spec_hash()
                    == notarization.block_hash@ && b.votes@ == notarization.votes@ && b.height == height
            },
            (old(self).leader_block_ready(height, notarization.block_hash@) || old(self).deferred_block_ready(
                height,
                notarization.block_hash@,
            )) && notarization.votes@.len() <= u32::MAX ==> final(self).latest_view_height == height,
    {
        let block = match self.get_block(height, &notarization.block_hash) {
            None => {
                self.outbox.push(Action::RequestBlocks(height));
                return;
            },
            Some(b) => b,
        };
        if block.height != height {
            return;
        }
        match self.verify_block(&block) {
            BlockVerificationResult::Verifiable(true) => {},
            _ => {
                return;
            },
        }
        if notarization.votes.len() > u32::MAX as usize {
            return;
        }
        let notarized = NotarizedBlock {
            height: block.height,
            transactions: copy_transactions(&block.transactions),
            previous_block_hash: block.previous_block_hash,
            slot_leader_signature: block.slot_leader_signature,
            votes: copy_votes(&notarization.votes),
        };
        let stored = NotarizedBlock {
            height: block.height,
            transactions: block.transactions,
            previous_block_hash: block.previous_block_hash,
            slot_leader_signature: block.slot_leader_signature,
            votes: copy_votes(&notarization.votes),
        };
        let ghost chain_before = self.viewchain@;
        self.viewchain.push(SlotState::Block(stored));
        assert(self.viewchain@.drop_last() =~= chain_before);
        self.latest_view_height = height;
        self.outbox.push(Action::PersistSlot(SlotState::Block(notarized)));
        self.slot_start = now;
        proof {
            assert forall|i: int| 0 <= i < self.viewchain@.len() implies SlotState::wf_model(
                #[trigger] self.viewchain@[i]@,
            ) by {
                if i < old(self).viewchain@.len() {
                    assert(self.viewchain@[i] == old(self).viewchain@[i]);
                }
            }
        }
        self.calculate_view_seen_pow_hash();
    }

    /// Extends the view chain at `height` with the nullification.
    fn add_nullification_to_viewchain(
        &mut self,
        height: u64,
        notarization: &NullificationNotarization,
        now: u64,
    )
        requires
            old(self).wf(),
            height == old(self).latest_view_height + 1,
            old(self).viewchain@.len() > 0,
        ensures
            final(self).wf(),
            notarization.votes@.len() <= u32::MAX ==> final(self).latest_view_height == height,
            final(self).latest_view_height == old(self).latest_view_height
                || final(self).latest_view_height == height,
            final(self).latest_finalized_block_height == old(self).latest_finalized_block_height,
            final(self).latest_non_cancellable_slot_height == old(self).latest_non_cancellable_slot_height,
            final(self).viewchain@.len() > 0,
            final(self).epoch_states == old(self).epoch_states,
            final(self).local_validator_slot_state == old(self).local_validator_slot_state,
            final(self).latest_view_height == old(self).latest_view_height ==> final(self).viewchain
                == old(self).viewchain,
            final(self).latest_view_height == height ==> {
                &&& final(self).viewchain@.len() == old(self).viewchain@.len() + 1
                &&& final(self).viewchain@.drop_last() == old(self).viewchain@
                &&& final(self).viewchain@.last() matches SlotState::Nullification(n) && n.height
                    == height && n.votes@ == notarization.votes@
            },
    {
        if notarization.votes.len() > u32::MAX as usize {
            return;
        }
        let nullification = NotarizedNullification { height, votes: copy_votes(&notarization.votes) };
        let stored = NotarizedNullification { height, votes: copy_votes(&notarization.votes) };
        let ghost chain_before = self.viewchain@;
        self.viewchain.push(SlotState::Nullification(stored));
        assert(self.viewchain@.drop_last() =~= chain_before);
        self.latest_view_height = height;
        self.outbox.push(Action::PersistSlot(SlotState::Nullification(nullification)));
        self.slot_start = now;
        proof {
            assert forall|i: int| 0 <= i < self.viewchain@.len() implies SlotState::wf_model(
                #[trigger] self.viewchain@[i]@,
            ) by {
                if i < old(self).viewchain@.len() {
                    assert(self.viewchain@[i] == old(self).viewchain@[i]);
                }
            }
        }
        self.calculate_view_seen_pow_hash();
    }

    /// Removes the digests equal to `d` from a list.
    fn remove_digest(ds: &mut Vec<Sha256Digest>, d: &Sha256Digest)
        ensures
            final(ds)@.len() <= old(ds)@.len(),
    {
        let mut kept: Vec<Sha256Digest> = Vec::new();
        let mut i: usize = 0;
        while i < ds.len()
            invariant
                i <= ds@.len(),
                kept@.len() <= i,
            decreases ds@.len() - i,
        {
            if !(ds[i] == *d) {
                kept.push(ds[i]);
            }
            i = i + 1;
        }
        *ds = kept;
    }

    /// Finds a height between the irreversible one and the tip that the view
    /// chain holds as a block but whose slot has since finalized a
    /// nullification; truncates the chain there and puts the nullification in
    /// its place. Returns whether it did.
    fn check_for_viewchain_nullification(&mut self, now: u64) -> (r: bool)
        requires
            old(self).wf(),
            old(self).viewchain@.len() > 0,
        ensures
            final(self).wf(),
            final(self).viewchain@.len() > 0,
            !r ==> final(self).viewchain == old(self).viewchain && final(self).latest_view_height
                == old(self).latest_view_height && *final(self) == *old(self),
            r == old(self).has_reorg(),
            r ==> {
                let k = old(self).first_reorg();
                let n = old(self).slot_consensus@[k].consensus->FinalizedNullification_0;
                let base = old(self).latest_finalized_block_height;
                &&& final(self).viewchain@.take(k - base) == old(self).viewchain@.take(k - base)
                &&& n.votes@.len() <= u32::MAX ==> final(self).viewchain@.len() == k - base + 1
                    && final(self).extended_with_nullification(k, n.votes@)
                &&& digest_views(final(self).view_consumed_pow_hashes@) == chain_pow_hashes(final(self).viewchain@)
                &&& digest_views(final(self).view_consumed_txs@) == chain_txhashes(final(self).viewchain@)
            },
            final(self).latest_finalized_block_height == old(self).latest_finalized_block_height,
            final(self).latest_non_cancellable_slot_height == old(self).latest_non_cancellable_slot_height,
            final(self).epoch_states == old(self).epoch_states,
            final(self).local_validator_slot_state == old(self).local_validator_slot_state,
    {
        let mut height: u64 = self.latest_non_cancellable_slot_height;
        while height < self.latest_view_height
            invariant
                self.wf(),
                self.viewchain@.len() > 0,
                self.latest_non_cancellable_slot_height <= height <= self.latest_view_height,
                self.viewchain == old(self).viewchain,
                self.latest_view_height == old(self).latest_view_height,
                self.latest_finalized_block_height == old(self).latest_finalized_block_height,
                self.latest_non_cancellable_slot_height == old(self).latest_non_cancellable_slot_height,
                self.epoch_states == old(self).epoch_states,
                self.local_validator_slot_state == old(self).local_validator_slot_state,
                *self == *old(self),
                forall|g: u64|
                    self.latest_non_cancellable_slot_height < g <= height ==> !#[trigger] old(self).reorg_at(g),
            decreases self.latest_view_height - height,
        {
            height = height + 1;
            let view_is_block = match self.viewchain_slot(height) {
                Some(SlotState::Block(_)) => true,
                _ => false,
            };
            let notarization = match self.slot_consensus.get(&height) {
                Some(s) => match &s.consensus {
                    Consensus::FinalizedNullification(n) => Some(
                        NullificationNotarization { votes: copy_votes(&n.votes), height: n.height },
                    ),
                    _ => None,
                },
                None => None,
            };
            proof {
                if !(view_is_block && notarization is Some) {
                    assert(!old(self).reorg_at(height));
                }
            }
            if view_is_block {
                if let Some(n) = notarization {
                    assert(old(self).reorg_at(height));
                    assert(height - self.latest_finalized_block_height < self.viewchain@.len());
                    assert(height - self.latest_finalized_block_height < self.viewchain.len());
                    assert(height - self.latest_finalized_block_height <= usize::MAX);
                    let keep = (height - self.latest_finalized_block_height) as usize;
                    assert(keep == height - self.latest_finalized_block_height);
                    let _discarded = self.viewchain.split_off(keep);
                    assert(self.viewchain@.len() == keep);
                    self.latest_view_height = height - 1;
                    proof {
                        assert forall|i: int| 0 <= i < self.viewchain@.len() implies SlotState::wf_model(
                            #[trigger] self.viewchain@[i]@,
                        ) by {
                            assert(self.viewchain@[i] == old(self).viewchain@[i]);
                        }
                    }
                    let ghost kept = self.viewchain@;
                    proof {
                        let k = old(self).first_reorg();
                        assert(k == height) by {
                            if k < height {
                                assert(!old(self).reorg_at(k));
                            } else if k > height {
                                assert(!old(self).reorg_at(height));
                            }
                        }
                        assert(kept =~= old(self).viewchain@.take(keep as int));
                    }
                    self.add_nullification_to_viewchain(height, &n, now);
                    proof {
                        if self.latest_view_height == height {
                            assert(self.viewchain@.take(keep as int) =~= kept);
                        } else {
                            assert(self.viewchain@ == kept);
                        }
                    }
                    self.calculate_view_seen_pow_hash();
                    return true;
                }
            }
        }
        proof {
            assert forall|g: u64|
                self.latest_non_cancellable_slot_height < g <= self.latest_view_height implies !#[trigger] old(self).reorg_at(g) by {}
        }
        false
    }

    /// Removes from the mempool the transactions that are no longer valid, and
    /// frees their hashes from the view chain's consumed lists.
    fn clean_mempool(&mut self)
        requires
            old(self).wf(),
        ensures
            final(self).wf(),
            Self::same_core(*old(self), *final(self)),
            final(self).outbox == old(self).outbox,
            models(final(self).mempool@) == keep_where(
                models(old(self).mempool@),
                |t: crate::types::TransactionModel| crate::execution::transaction_valid(
                    t,
                    old(self).execution.seen_pow_hash@,
                ),
            ),
            forall|i: int|
                0 <= i < final(self).mempool@.len() ==> crate::execution::transaction_valid(
                    #[trigger] final(self).mempool@[i]@,
                    final(self).execution.seen_pow_hash@,
                ),
    {
        let mut kept: Vec<Transaction> = Vec::new();
        let mut removed: Vec<Transaction> = Vec::new();
        let ghost seen = self.execution.seen_pow_hash@;
        let mut i: usize = 0;
        while i < self.mempool.len()
            invariant
                self.wf(),
                i <= self.mempool@.len(),
                kept@.len() <= i,
                Self::same_core(*old(self), *self),
                self.outbox == old(self).outbox,
                self.mempool == old(self).mempool,
                seen == old(self).execution.seen_pow_hash@,
                models(kept@) == keep_where(
                    models(self.mempool@.take(i as int)),
                    |t: crate::types::TransactionModel| crate::execution::transaction_valid(t, seen),
                ),
                forall|k: int| 0 <= k < kept@.len() ==> Transaction::wf_model(#[trigger] kept@[k]@),
                forall|k: int| 0 <= k < removed@.len() ==> Transaction::wf_model(#[trigger] removed@[k]@),
                forall|k: int|
                    0 <= k < kept@.len() ==> crate::execution::transaction_valid(
                        #[trigger] kept@[k]@,
                        self.execution.seen_pow_hash@,
                    ),
            decreases self.mempool@.len() - i,
        {
            assert(Transaction::wf_model(self.mempool@[i as int]@));
            assert(models(self.mempool@.take(i + 1)).drop_last() =~= models(self.mempool@.take(i as int)));
            assert(models(self.mempool@.take(i + 1)).last() == self.mempool@[i as int]@);
            let t = self.mempool[i].duplicate();
            let ghost kb = kept@;
            if self.execution.verify_transaction(&t) {
                kept.push(t);
                assert(models(kept@) =~= models(kb).push(t@));
            } else {
                removed.push(t);
            }
            i = i + 1;
        }
        assert(self.mempool@.take(i as int) =~= self.mempool@);
        proof {
            lemma_keep_where_sorted(
                models(self.mempool@),
                |t: crate::types::TransactionModel| crate::execution::transaction_valid(t, seen),
            );
            lemma_sorted_distinct(keep_where(
                models(self.mempool@),
                |t: crate::types::TransactionModel| crate::execution::transaction_valid(t, seen),
            ));
        }
        let mut j: usize = 0;
        while j < removed.len()
            invariant
                self.wf(),
                j <= removed@.len(),
                Self::same_core(*old(self), *self),
                self.outbox == old(self).outbox,
                self.mempool == old(self).mempool,
                forall|k: int| 0 <= k < removed@.len() ==> Transaction::wf_model(#[trigger] removed@[k]@),
            decreases removed@.len() - j,
        {
            let txhash = removed[j].calculate_txhash();
            let pow_hash = removed[j].calculate_pow_hash();
            Self::remove_digest(&mut self.view_consumed_txs, &txhash);
            Self::remove_digest(&mut self.view_consumed_pow_hashes, &pow_hash);
            j = j + 1;
        }
        self.mempool = kept;
    }
}

impl ValidatorStateMachine {
    /// Broadcasts again every vote gathered at slot `slot_height`.
    fn rebroadcast_all_votes(&mut self, slot_height: u64)
        requires
            old(self).wf(),
        ensures
            final(self).wf(),
            Self::same_core(*old(self), *final(self)),
            final(self).mempool == old(self).mempool,
    {
        let s = match self.slot_consensus.get(&slot_height) {
            None => return,
            Some(s) => s,
        };
        let mut out: Vec<Action> = Vec::new();
        let mut i: usize = 0;
        while i < s.block_candidates.len()
            invariant
                i <= s.block_candidates@.len(),
            decreases s.block_candidates@.len() - i,
        {
            let c = &s.block_candidates[i];
            let mut j: usize = 0;
            while j < c.votes.len()
                invariant
                    j <= c.votes@.len(),
                decreases c.votes@.len() - j,
            {
                let v = c.votes[j];
                out.push(
                    Action::BroadcastBlockVote(
                        BlockVote {
                            block_hash: c.block_hash,
                            slot_height,
                            signature: v.signature,
                            validator_index: v.validator_index,
                        },
                    ),
                );
                j = j + 1;
            }
            i = i + 1;
        }
        let mut k: usize = 0;
        while k < s.nullification_votes.len()
            invariant
                k <= s.nullification_votes@.len(),
            decreases s.nullification_votes@.len() - k,
        {
            let v = s.nullification_votes[k];
            out.push(
                Action::BroadcastNullVote(
                    NullVote { slot_height, signature: v.signature, validator_index: v.validator_index },
                ),
            );
            k = k + 1;
        }
        self.outbox.append(&mut out);
    }

    /// When the slot has been open too long, asks peers for notarizations and
    /// rebroadcasts the gathered votes, each at most once per interval.
    fn execute_recovery_if_stale(&mut self, height: u64, now: u64)
        requires
            old(self).wf(),
        ensures
            final(self).wf(),
            final(self).slot_consensus == old(self).slot_consensus,
            final(self).viewchain == old(self).viewchain,
            final(self).latest_view_height == old(self).latest_view_height,
            final(self).latest_finalized_block_height == old(self).latest_finalized_block_height,
            final(self).latest_non_cancellable_slot_height == old(self).latest_non_cancellable_slot_height,
            final(self).epoch_states == old(self).epoch_states,
            final(self).local_validator_slot_state == old(self).local_validator_slot_state,
            final(self).mempool == old(self).mempool,
            final(self).slot_start == old(self).slot_start,
    {
        let is_recovery = now > self.slot_start && now - self.slot_start > RECOVERY_AFTER_MS;
        let pull = now > self.last_time_asked_for_votes && now - self.last_time_asked_for_votes
            > RECOVERY_INTERVAL_MS;
        if is_recovery && pull {
            self.last_time_asked_for_votes = now;
            self.outbox.push(Action::RequestNotarizations(self.latest_non_cancellable_slot_height));
            self.outbox.push(Action::RequestNotarizations(height));
        }
        let push = now > self.last_time_rebroadcast_votes && now - self.last_time_rebroadcast_votes
            > RECOVERY_INTERVAL_MS;
        if is_recovery && push {
            self.last_time_rebroadcast_votes = now;
            self.rebroadcast_all_votes(height);
        }
    }

    /// What one step of the view chain does, from `o` to `f`.
    pub open spec fn viewchain_progressed(o: ValidatorStateMachine, f: ValidatorStateMachine) -> bool {
        &&& f.wf()
        &&& f.latest_finalized_block_height == o.latest_finalized_block_height
        &&& f.latest_non_cancellable_slot_height == o.latest_non_cancellable_slot_height
        &&& f.epoch_states == o.epoch_states
        &&& o.viewchain@.len() > 0 ==> f.viewchain@.len() > 0
        &&& o.viewchain@.len() > 0 && o.latest_view_height < u64::MAX && !o.has_reorg() ==> {
            let h = (o.latest_view_height + 1) as u64;
            let verdict = o.verdict_at(h);
            let t = accepted_transition(o.local_vote(h), verdict);
            let unchanged = f.latest_view_height == o.latest_view_height && f.viewchain == o.viewchain;
            &&& t is Stay ==> unchanged
            &&& t is AddNullification ==> unchanged || f.extended_with_nullification(
                h,
                verdict->FinalizedNullification_0.votes@,
            )
            &&& t is AddNullification && verdict->FinalizedNullification_0.votes@.len() <= u32::MAX
                ==> f.extended_with_nullification(h, verdict->FinalizedNullification_0.votes@)
            &&& t is AddBlock ==> unchanged || f.extended_with_block(h, notarized_hash(verdict))
            &&& t is AddBlock && (o.leader_block_ready(h, notarized_hash(verdict)) || o.deferred_block_ready(
                h,
                notarized_hash(verdict),
            )) && block_votes_of_verdict(verdict).len() <= u32::MAX ==> f.extended_with_block(
                h,
                notarized_hash(verdict),
            )
        }
        &&& o.viewchain@.len() > 0 && o.has_reorg() ==> {
            let k = o.first_reorg();
            let n = o.slot_consensus@[k].consensus->FinalizedNullification_0;
            let base = o.latest_finalized_block_height;
            &&& f.viewchain@.take(k - base) == o.viewchain@.take(k - base)
            &&& n.votes@.len() <= u32::MAX ==> f.viewchain@.len() == k - base + 1
                && f.extended_with_nullification(k, n.votes@)
            &&& digest_views(f.view_consumed_pow_hashes@) == chain_pow_hashes(f.viewchain@)
            &&& digest_views(f.view_consumed_txs@) == chain_txhashes(f.viewchain@)
        }
    }

    /// Moves the view chain forward at the next height when the slot's verdict
    /// allows it given this node's own vote there; a detected nullification of a
    /// viewed block takes precedence.
    #[verifier::rlimit(100)]
    pub fn progress_viewchain(&mut self, now: u64)
        requires
            old(self).wf(),
        ensures
            Self::viewchain_progressed(*old(self), *final(self)),
    {
        if self.viewchain.len() == 0 {
            return;
        }
        if self.check_for_viewchain_nullification(now) {
            return;
        }
        if self.latest_view_height == u64::MAX {
            return;
        }
        let height = self.latest_view_height + 1;
        let verdict = self.slot_verdict(height);
        let vote = self.local_state(height).vote_state;
        match view_transition(&vote, &verdict) {
            ViewTransition::AddNullification => {
                if let Consensus::FinalizedNullification(n) = &verdict {
                    self.add_nullification_to_viewchain(height, n, now);
                }
            },
            ViewTransition::AddBlock => {
                match &verdict {
                    Consensus::FinalizedBlock(n) => self.add_block_to_viewchain(height, n, now),
                    Consensus::ViewBlock(n) => self.add_block_to_viewchain(height, n, now),
                    _ => {},
                }
            },
            ViewTransition::Stay => {},
        }
        self.execute_recovery_if_stale(height, now);
    }

    /// What one commit step does, from `o` to `f`: a finalized block at the
    /// next height becomes the root of the view chain and is irreversible; a
    /// finalized nullification there becomes irreversible; otherwise nothing moves.
    pub open spec fn blockchain_progressed(o: ValidatorStateMachine, f: ValidatorStateMachine) -> bool {
        &&& f.wf()
        &&& f.latest_view_height == o.latest_view_height
        &&& f.latest_finalized_block_height >= o.latest_finalized_block_height
        &&& f.latest_non_cancellable_slot_height >= o.latest_non_cancellable_slot_height
        &&& f.epoch_states == o.epoch_states
        &&& o.viewchain@.len() > 0 ==> f.viewchain@.len() > 0
        &&& {
            let h = (o.latest_non_cancellable_slot_height + 1) as u64;
            let open = o.viewchain@.len() > 0 && o.latest_non_cancellable_slot_height
                < o.latest_view_height && o.slot_consensus@.contains_key(h);
            &&& open && o.slot_consensus@[h].consensus is FinalizedNullification ==> {
                &&& f.latest_non_cancellable_slot_height == h
                &&& f.latest_finalized_block_height == o.latest_finalized_block_height
                &&& f.viewchain == o.viewchain
            }
            &&& open && o.slot_consensus@[h].consensus is FinalizedBlock
                && o.slot_consensus@[h].consensus->FinalizedBlock_0.votes@.len() <= u32::MAX ==> {
                &&& f.latest_non_cancellable_slot_height == h
                &&& f.latest_finalized_block_height == h
                &&& f.viewchain@ == o.viewchain@.skip(h - o.latest_finalized_block_height)
                &&& !f.slot_consensus@.contains_key(h)
                &&& f.viewchain@[0] is Block ==> {
                    let b = f.viewchain@[0]->Block_0;
                    let n = o.slot_consensus@[h].consensus->FinalizedBlock_0;
                    let k = o.outbox@.len();
                    &&& f.outbox@.len() >= k + 2
                    &&& f.outbox@.take(k as int) == o.outbox@
                    &&& persists_nulls(
                        f.outbox@.subrange(k as int, f.outbox@.len() - 2),
                        o.viewchain@.subrange(1, h - o.latest_finalized_block_height),
                    )
                    &&& f.outbox@[f.outbox@.len() - 2] matches Action::PersistSlot(SlotState::Block(p))
                        && p@ == finalized_model(b, n.votes@)
                    &&& f.outbox@[f.outbox@.len() - 1] matches Action::ApplyBlock(a) && a@
                        == finalized_model(b, n.votes@)
                    &&& executed_prefix(
                        o.execution.seen_pow_hash@,
                        f.execution.seen_pow_hash@,
                        models(b.transactions@),
                    )
                    &&& forall|i: int|
                        0 <= i < f.mempool@.len() ==> transaction_valid(
                            #[trigger] f.mempool@[i]@,
                            f.execution.seen_pow_hash@,
                        )
                }
            }
            &&& !(open && (o.slot_consensus@[h].consensus is FinalizedNullification
                || o.slot_consensus@[h].consensus is FinalizedBlock)) ==> {
                &&& f.latest_non_cancellable_slot_height == o.latest_non_cancellable_slot_height
                &&& f.latest_finalized_block_height == o.latest_finalized_block_height
            }
        }
    }

    /// Commits the next height once its slot is finalized. A finalized block is
    /// persisted with the intervening nullifications, executed, and becomes the
    /// new root of the view chain, and the mempool drops what became invalid; a
    /// finalized nullification makes its height irreversible.
    pub fn progress_blockchain(&mut self)
        requires
            old(self).wf(),
        ensures
            Self::blockchain_progressed(*old(self), *final(self)),
    {
        if self.viewchain.len() == 0 || self.latest_non_cancellable_slot_height
            >= self.latest_view_height {
            return;
        }
        let height = self.latest_non_cancellable_slot_height + 1;
        let (finalized_block, nullified) = match self.slot_consensus.get(&height) {
            None => return,
            Some(s) => match &s.consensus {
                Consensus::FinalizedBlock(n) => (Some(copy_votes(&n.votes)), false),
                Consensus::FinalizedNullification(_) => (None, true),
                _ => (None, false),
            },
        };
        if nullified {
            self.latest_non_cancellable_slot_height = height;
            self.calculate_view_seen_pow_hash();
            return;
        }
        let votes = match finalized_block {
            None => return,
            Some(v) => v,
        };
        if votes.len() > u32::MAX as usize {
            return;
        }
        assert(height - self.latest_finalized_block_height < self.viewchain.len());
        let split = (height - self.latest_finalized_block_height) as usize;
        assert(split == height - self.latest_finalized_block_height);
        let ghost before = self.viewchain@;
        let rest = self.viewchain.split_off(split);
        let mut committed = rest;
        std::mem::swap(&mut committed, &mut self.viewchain);
        assert(committed@ == before.subrange(0, split as int));
        assert(self.viewchain@ == before.subrange(split as int, before.len() as int));
        assert(self.viewchain@ =~= before.skip(split as int));
        proof {
            assert forall|i: int| 0 <= i < self.viewchain@.len() implies SlotState::wf_model(
                #[trigger] self.viewchain@[i]@,
            ) by {
                assert(self.viewchain@[i] == before[split + i]);
            }
        }
        let mut out: Vec<Action> = Vec::new();
        let mut i: usize = 1;
        assert(committed@.subrange(1, 1) =~= Seq::<SlotState>::empty());
        while i < committed.len()
            invariant
                1 <= i <= committed@.len(),
                persists_nulls(out@, committed@.subrange(1, i as int)),
            decreases committed@.len() - i,
        {
            assert(committed@.subrange(1, i + 1).drop_last() =~= committed@.subrange(1, i as int));
            assert(committed@.subrange(1, i + 1).last() == committed@[i as int]);
            let ghost out0 = out@;
            if let SlotState::Nullification(n) = &committed[i] {
                out.push(
                    Action::PersistSlot(
                        SlotState::Nullification(
                            NotarizedNullification { height: n.height, votes: copy_votes(&n.votes) },
                        ),
                    ),
                );
                assert(out@.drop_last() =~= out0);
            }
            i = i + 1;
        }
        assert(committed@.subrange(1, i as int) =~= before.subrange(1, split as int));
        let ghost k = self.outbox@.len();
        let ghost nulls = out@;
        self.outbox.append(&mut out);
        if let SlotState::Block(b) = &self.viewchain[0] {
            let block = NotarizedBlock {
                height: b.height,
                transactions: copy_transactions(&b.transactions),
                previous_block_hash: b.previous_block_hash,
                slot_leader_signature: b.slot_leader_signature,
                votes,
            };
            self.execution.execute_block(&block);
            let persisted = NotarizedBlock {
                height: b.height,
                transactions: copy_transactions(&b.transactions),
                previous_block_hash: b.previous_block_hash,
                slot_leader_signature: b.slot_leader_signature,
                votes: copy_votes(&block.votes),
            };
            self.outbox.push(Action::PersistSlot(SlotState::Block(persisted)));
            self.outbox.push(Action::ApplyBlock(block));
            assert(self.outbox@.subrange(k as int, self.outbox@.len() - 2) =~= nulls);
            assert(self.outbox@.take(k as int) =~= old(self).outbox@);
        }
        self.slot_consensus.remove(&height);
        self.latest_finalized_block_height = height;
        self.latest_non_cancellable_slot_height = height;
        self.calculate_view_seen_pow_hash();
        self.clean_mempool();
    }
}

impl ValidatorStateMachine {
    /// This node's own vote at slot `height`.
    pub open spec fn local_vote(self, height: u64) -> VoteState {
        if self.local_validator_slot_state@.contains_key(height) {
            self.local_validator_slot_state@[height].vote_state
        } else {
            VoteState::NoVoteYet
        }
    }

    /// The block this node proposes as leader of `slot_height`: on the nearest
    /// block below it, with every mempool transaction whose hash and
    /// proof-of-work hash the view chain has not consumed, signed by this node.
    pub fn get_block_to_propose(&self, slot_height: u64) -> (r: Option<Block>)
        requires
            self.wf(),
        ensures
            self.nearest_block_hash(slot_height - 1) is None ==> r is None,
            self.nearest_block_hash(slot_height - 1) is Some ==> (r matches Some(b) && self.is_proposal(
                b,
                slot_height,
            )),
    {
        let previous_block_hash = match self.select_parent(slot_height) {
            None => return None,
            Some(p) => p,
        };
        let mut transactions: Vec<Transaction> = Vec::new();
        let mut i: usize = 0;
        while i < self.mempool.len()
            invariant
                self.wf(),
                i <= self.mempool@.len(),
                models(transactions@) == self.eligible_txs(self.mempool@.take(i as int)),
                transactions@.len() <= i,
                forall|k: int| 0 <= k < transactions@.len() ==> Transaction::wf_model(#[trigger] transactions@[k]@),
            decreases self.mempool@.len() - i,
        {
            let t = &self.mempool[i];
            assert(Transaction::wf_model(self.mempool@[i as int]@));
            assert(self.mempool@.take(i + 1).drop_last() =~= self.mempool@.take(i as int));
            assert(models(self.mempool@.take(i + 1)).drop_last() =~= models(self.mempool@.take(i as int)));
            assert(models(self.mempool@.take(i + 1)).last() == self.mempool@[i as int]@);
            let txhash = t.calculate_txhash();
            let pow_hash = t.calculate_pow_hash();
            if !contains_digest(&self.view_consumed_txs, &txhash) && !contains_digest(
                &self.view_consumed_pow_hashes,
                &pow_hash,
            ) {
                let c = t.duplicate();
                let ghost before = transactions@;
                transactions.push(c);
                proof {
                    assert(models(transactions@) =~= models(before).push(c@));
                    assert forall|k: int| 0 <= k < transactions@.len() implies Transaction::wf_model(#[trigger] transactions@[k]@) by {
                        if k < before.len() {
                            assert(transactions@[k] == before[k]);
                        }
                    }
                }
            }
            i = i + 1;
        }
        assert(self.mempool@.take(i as int) =~= self.mempool@);
        proof {
            lemma_keep_where_sorted(
                models(self.mempool@),
                |t: crate::types::TransactionModel| self.eligible(t),
            );
            lemma_sorted_distinct(keep_where(
                models(self.mempool@),
                |t: crate::types::TransactionModel| self.eligible(t),
            ));
        }
        let block_data = BlockData { height: slot_height, transactions, previous_block_hash };
        proof {
            assert forall|k: int| 0 <= k < models(block_data.transactions@).len() implies Transaction::wf_model(
                #[trigger] models(block_data.transactions@)[k],
            ) by {
                assert(Transaction::wf_model(block_data.transactions@[k]@));
            }
        }
        let block_hash = block_data.calculate_block_hash();
        let signature = self.private_key.sign_hash(block_hash);
        let block = Block {
            height: slot_height,
            transactions: block_data.transactions,
            previous_block_hash,
            slot_leader_signature: signature,
        };
        Some(block)
    }

    /// As leader of the next slot, proposes a block once: broadcast, and taken
    /// in locally like any other proposal.
    fn exec_leader_role(&mut self)
        requires
            old(self).wf(),
            old(self).latest_view_height < u64::MAX,
        ensures
            final(self).wf(),
            final(self).slot_start == old(self).slot_start,
            final(self).pub_key == old(self).pub_key,
            final(self).private_key == old(self).private_key,
            Self::leader_proposed(*old(self), *final(self)),
            forall|h: u64|
                #[trigger] old(self).slot_consensus@.contains_key(h) ==> final(self).slot_consensus@.contains_key(h)
                    && final(self).slot_consensus@[h].consensus == old(self).slot_consensus@[h].consensus,
            final(self).latest_view_height == old(self).latest_view_height,
            final(self).latest_finalized_block_height == old(self).latest_finalized_block_height,
            final(self).latest_non_cancellable_slot_height == old(self).latest_non_cancellable_slot_height,
            final(self).viewchain == old(self).viewchain,
            final(self).epoch_states == old(self).epoch_states,
    {
        let slot_height = self.latest_view_height + 1;
        if !self.is_leader_for_slot(&self.pub_key, slot_height) {
            return;
        }
        let state = self.local_state(slot_height);
        if state.leader_state == LeaderState::HasNotProposedBlock {
            if let Some(block) = self.get_block_to_propose(slot_height) {
                let ghost o = *self;
                let announced = block.duplicate();
                self.set_local_state(
                    slot_height,
                    ValidatorSlotState {
                        vote_state: state.vote_state,
                        leader_state: LeaderState::HasProposedBlock,
                    },
                );
                self.handle_block_proposal_received(block);
                self.outbox.push(Action::BroadcastBlockProposal(announced));
                proof {
                    assert(self.outbox@.drop_last() =~= o.outbox@);
                    assert(o.is_proposal(announced, slot_height));
                }
            }
        }
    }

    /// Signs, broadcasts and applies this node's null vote at `slot_height`.
    fn cast_null_vote(&mut self, slot_height: u64, validator_index: u64)
        requires
            old(self).wf(),
        ensures
            final(self).wf(),
            final(self).local_validator_slot_state == old(self).local_validator_slot_state,
            final(self).latest_view_height == old(self).latest_view_height,
            final(self).latest_finalized_block_height == old(self).latest_finalized_block_height,
            final(self).latest_non_cancellable_slot_height == old(self).latest_non_cancellable_slot_height,
            final(self).viewchain == old(self).viewchain,
            final(self).epoch_states == old(self).epoch_states,
            final(self).slot_start == old(self).slot_start,
            final(self).pub_key == old(self).pub_key,
            final(self).private_key == old(self).private_key,
            Self::cast_null(*old(self), *final(self), slot_height, validator_index),
    {
        let null_hash = calculate_null_hash(slot_height);
        let signature = self.private_key.sign_hash(null_hash);
        let vote = NullVote { slot_height, signature, validator_index };
        let r = self.handle_nullification_vote(vote);
        let ghost applied = self.slot_consensus@;
        self.outbox.push(Action::BroadcastNullVote(vote));
        assert(self.outbox@.drop_last() =~= old(self).outbox@);
        assert(self.slot_consensus@ == applied);
        assert(Self::null_vote_applied(*old(self), self.slot_consensus@, vote, r));
    }

    /// Signs, broadcasts and applies this node's vote for `block_hash` at `slot_height`.
    fn cast_block_vote(&mut self, slot_height: u64, validator_index: u64, block_hash: Sha256Digest)
        requires
            old(self).wf(),
        ensures
            final(self).wf(),
            final(self).local_validator_slot_state == old(self).local_validator_slot_state,
            final(self).latest_view_height == old(self).latest_view_height,
            final(self).latest_finalized_block_height == old(self).latest_finalized_block_height,
            final(self).latest_non_cancellable_slot_height == old(self).latest_non_cancellable_slot_height,
            final(self).viewchain == old(self).viewchain,
            final(self).epoch_states == old(self).epoch_states,
            final(self).slot_start == old(self).slot_start,
            final(self).pub_key == old(self).pub_key,
            final(self).private_key == old(self).private_key,
            Self::cast_block(*old(self), *final(self), slot_height, validator_index, block_hash@),
    {
        let signature = self.private_key.sign_hash(block_hash);
        let vote = BlockVote { block_hash, slot_height, signature, validator_index };
        let r = self.handle_block_vote(vote);
        let ghost applied = self.slot_consensus@;
        self.outbox.push(Action::BroadcastBlockVote(vote));
        assert(self.outbox@.drop_last() =~= old(self).outbox@);
        assert(self.slot_consensus@ == applied);
        assert(Self::block_vote_applied(*old(self), self.slot_consensus@, vote, r));
    }

    /// As a validator of the next slot: votes null once the proposal deadline
    /// has passed without a vote, else for the leader's verified proposal; and
    /// after a block vote, votes null when the slot is implicitly nullified.
    #[verifier::rlimit(100)]
    fn exec_validator_role(&mut self, now: u64)
        requires
            old(self).wf(),
            old(self).latest_view_height < u64::MAX,
        ensures
            final(self).wf(),
            final(self).latest_view_height == old(self).latest_view_height,
            final(self).latest_finalized_block_height == old(self).latest_finalized_block_height,
            final(self).latest_non_cancellable_slot_height == old(self).latest_non_cancellable_slot_height,
            final(self).viewchain == old(self).viewchain,
            final(self).epoch_states == old(self).epoch_states,
            final(self).slot_start == old(self).slot_start,
            final(self).pub_key == old(self).pub_key,
            Self::validator_voted(*old(self), *final(self), now),
    {
        let slot_height = self.latest_view_height + 1;
        let validator_index = match self.get_validator_for_key(&self.pub_key, slot_height) {
            None => return,
            Some(v) => v.validator_index,
        };
        let state = self.local_state(slot_height);
        let deadline_expired = now >= self.slot_start && now - self.slot_start >= PROPOSAL_DEADLINE_MS;
        let proposal = self.get_slot_block_proposal(slot_height);
        let has_proposal = proposal.is_some();
        match first_vote(&state.vote_state, deadline_expired, has_proposal) {
            FirstVote::Null => {
                self.cast_null_vote(slot_height, validator_index);
                self.set_local_state(
                    slot_height,
                    ValidatorSlotState {
                        vote_state: VoteState::VotedForNullification,
                        leader_state: state.leader_state,
                    },
                );
            },
            FirstVote::Block => {
                if let Some(block) = proposal {
                    assert(Block::wf_model(block@)) by {
                        assert(proposals_wf(self.slot_consensus@[slot_height]));
                        if let Some(b) = self.slot_consensus@[slot_height].first_leader_signed_block_received {
                        } else {
                            let i = choose|i: int|
                                0 <= i < self.slot_consensus@[slot_height].unverified_blocks_received@.len()
                                    && self.slot_consensus@[slot_height].unverified_blocks_received@[i]@ == block@
                                    && self.verification_of(self.slot_consensus@[slot_height].unverified_blocks_received@[i])
                                    == BlockVerificationResult::Verifiable(true);
                            assert(Block::wf_model(self.slot_consensus@[slot_height].unverified_blocks_received@[i]@));
                        }
                    }
                    let block_hash = block.calculate_block_hash();
                    self.cast_block_vote(slot_height, validator_index, block_hash);
                    self.set_local_state(
                        slot_height,
                        ValidatorSlotState {
                            vote_state: VoteState::VotedForBlock(block_hash),
                            leader_state: state.leader_state,
                        },
                    );
                }
            },
            FirstVote::Wait => {},
        }
        let verdict = self.slot_verdict(slot_height);
        if should_flee_to_safety(&state.vote_state, &verdict) {
            self.cast_null_vote(slot_height, validator_index);
            self.set_local_state(
                slot_height,
                ValidatorSlotState {
                    vote_state: VoteState::VotedForNullification,
                    leader_state: state.leader_state,
                },
            );
        }
    }

    /// Runs this node's roles at the next slot: leader if it leads it, validator
    /// if it holds stake.
    pub fn validator_actor(&mut self, now: u64)
        requires
            old(self).wf(),
        ensures
            final(self).wf(),
            old(self).latest_view_height < u64::MAX ==> exists|led: ValidatorStateMachine|
                {
                    &&& Self::leader_proposed(*old(self), led)
                    &&& led.latest_view_height == old(self).latest_view_height
                    &&& led.slot_start == old(self).slot_start
                    &&& led.pub_key == old(self).pub_key
                    &&& led.epoch_states == old(self).epoch_states
                    &&& led.private_key == old(self).private_key
                    &&& forall|h: u64|
                        #[trigger] old(self).slot_consensus@.contains_key(h) ==> led.slot_consensus@.contains_key(h)
                            && led.slot_consensus@[h].consensus == old(self).slot_consensus@[h].consensus
                    &&& Self::validator_voted(led, *final(self), now)
                },
            final(self).latest_view_height == old(self).latest_view_height,
            final(self).latest_finalized_block_height == old(self).latest_finalized_block_height,
            final(self).latest_non_cancellable_slot_height == old(self).latest_non_cancellable_slot_height,
            final(self).viewchain == old(self).viewchain,
            final(self).epoch_states == old(self).epoch_states,
    {
        if self.latest_view_height == u64::MAX {
            return;
        }
        let slot_height = self.latest_view_height + 1;
        self.exec_leader_role();
        let ghost led = *self;
        self.exec_validator_role(now);
        assert({
            &&& Self::leader_proposed(*old(self), led)
            &&& led.latest_view_height == old(self).latest_view_height
            &&& led.slot_start == old(self).slot_start
            &&& led.pub_key == old(self).pub_key
            &&& led.epoch_states == old(self).epoch_states
            &&& led.private_key == old(self).private_key
            &&& forall|h: u64|
                #[trigger] old(self).slot_consensus@.contains_key(h) ==> led.slot_consensus@.contains_key(h)
                    && led.slot_consensus@[h].consensus == old(self).slot_consensus@[h].consensus
            &&& Self::validator_voted(led, *self, now)
        });
    }

    /// One step of the consensus loop at time `now` (milliseconds): this node's
    /// roles, then the view chain, then the blockchain.
    pub fn tick(&mut self, now: u64)
        requires
            old(self).wf(),
        ensures
            final(self).wf(),
            final(self).latest_finalized_block_height >= old(self).latest_finalized_block_height,
            final(self).latest_non_cancellable_slot_height >= old(
                self,
            ).latest_non_cancellable_slot_height,
            final(self).epoch_states == old(self).epoch_states,
            exists|acted: ValidatorStateMachine, viewed: ValidatorStateMachine|
                {
                    &&& acted.wf()
                    &&& acted.viewchain == old(self).viewchain
                    &&& acted.latest_view_height == old(self).latest_view_height
                    &&& acted.latest_finalized_block_height == old(self).latest_finalized_block_height
                    &&& acted.latest_non_cancellable_slot_height == old(self).latest_non_cancellable_slot_height
                    &&& Self::viewchain_progressed(acted, viewed)
                    &&& Self::blockchain_progressed(viewed, *final(self))
                },
    {
        self.validator_actor(now);
        let ghost acted = *self;
        self.progress_viewchain(now);
        let ghost viewed = *self;
        self.progress_blockchain();
        assert(Self::viewchain_progressed(acted, viewed) && Self::blockchain_progressed(viewed, *self));
    }

    /// `after` is `before` with `t` inserted where the order of hashes puts it:
    /// after every transaction with a smaller hash, before every one with a larger.
    pub open spec fn inserted_by_txhash(before: Seq<Transaction>, after: Seq<Transaction>, t: Transaction) -> bool {
        exists|p: int|
            0 <= p <= before.len() && after == before.insert(p, t) && (forall|k: int|
                0 <= k < p ==> bytes_less(txhash_of(#[trigger] before[k]@), txhash_of(t@))) && (forall|k: int|
                p <= k < before.len() ==> bytes_less(txhash_of(t@), txhash_of(#[trigger] before[k]@)))
    }

    /// Whether a transaction may enter the mempool: valid for execution, and
    /// with a proof-of-work hash that the view chain has not consumed.
    pub fn valid_mempool_tx(&self, transaction: &Transaction) -> (r: bool)
        ensures
            r == (transaction_valid(transaction@, self.execution.seen_pow_hash@) && !holds_digest(
                self.view_consumed_pow_hashes@,
                pow_hash_of(transaction@),
            )),
    {
        let pow_hash = transaction.calculate_pow_hash();
        let pow_not_yet_used_in_view = !contains_digest(&self.view_consumed_pow_hashes, &pow_hash);
        let valid_tx = self.execution.verify_transaction(transaction);
        valid_tx && pow_not_yet_used_in_view
    }

    /// Admits a transaction to the mempool when it has an encoding, may enter
    /// it, is not there yet (by hash) and the mempool has room; the mempool
    /// stays in the order of transaction hashes.
    pub fn handle_new_mempool_tx(&mut self, transaction: Transaction)
        requires
            old(self).wf(),
        ensures
            final(self).wf(),
            Self::same_core(*old(self), *final(self)),
            final(self).view_consumed_pow_hashes == old(self).view_consumed_pow_hashes,
            final(self).view_consumed_txs == old(self).view_consumed_txs,
            final(self).outbox == old(self).outbox,
            ({
                let admitted = Transaction::wf_model(transaction@) && transaction_valid(
                    transaction@,
                    old(self).execution.seen_pow_hash@,
                ) && !holds_digest(old(self).view_consumed_pow_hashes@, pow_hash_of(transaction@))
                    && (forall|i: int|
                    0 <= i < old(self).mempool@.len() ==> txhash_of(#[trigger] old(self).mempool@[i]@)
                        != txhash_of(transaction@)) && old(self).mempool@.len() < MEMPOOL_CAPACITY;
                &&& admitted ==> Self::inserted_by_txhash(old(self).mempool@, final(self).mempool@, transaction)
                &&& !admitted ==> final(self).mempool == old(self).mempool
            }),
    {
        if transaction.calldata.len() > u32::MAX as usize {
            assert(!Transaction::wf_model(transaction@));
            return;
        }
        assert(Transaction::wf_model(transaction@));
        if !self.valid_mempool_tx(&transaction) {
            return;
        }
        if self.mempool.len() >= MEMPOOL_CAPACITY {
            return;
        }
        let txhash = transaction.calculate_txhash();
        let mut i: usize = 0;
        while i < self.mempool.len()
            invariant
                self.wf(),
                i <= self.mempool@.len(),
                *self == *old(self),
                txhash@ == txhash_of(transaction@),
                forall|k: int| 0 <= k < i ==> bytes_less(txhash_of(#[trigger] self.mempool@[k]@), txhash@),
            ensures
                i < self.mempool@.len() ==> bytes_less(txhash@, txhash_of(self.mempool@[i as int]@)),
            decreases self.mempool@.len() - i,
        {
            assert(Transaction::wf_model(self.mempool@[i as int]@));
            let other = self.mempool[i].calculate_txhash();
            if other == txhash {
                assert(txhash_of(old(self).mempool@[i as int]@) == txhash_of(transaction@));
                return;
            }
            proof {
                if other@ == txhash@ {
                    assert(other.data =~= txhash.data);
                }
            }
            if digest_less(&txhash, &other) {
                break;
            }
            proof {
                lemma_bytes_total(other@, txhash@);
            }
            i = i + 1;
        }
        let ghost tv = transaction;
        let ghost p = i as int;
        proof {
            let mo = models(old(self).mempool@);
            if p < mo.len() {
                assert forall|k: int| p <= k < mo.len() implies bytes_less(txhash@, txhash_of(#[trigger] mo[k])) by {
                    assert(mo[p] == old(self).mempool@[p]@);
                    if k > p {
                        lemma_bytes_less_trans(txhash@, txhash_of(mo[p]), txhash_of(mo[k]));
                    }
                }
            }
        }
        self.mempool.insert(i, transaction);
        proof {
            let ms = models(self.mempool@);
            let mo = models(old(self).mempool@);
            assert(ms =~= mo.insert(p, tv@));
            assert forall|a: int, b: int| 0 <= a < b < ms.len() implies bytes_less(txhash_of(#[trigger] ms[a]),
                txhash_of(#[trigger] ms[b])) by {
                if a < p && b < p {
                    assert(ms[a] == mo[a] && ms[b] == mo[b]);
                } else if a < p && b == p {
                    assert(ms[a] == old(self).mempool@[a]@);
                } else if a < p {
                    assert(ms[a] == mo[a] && ms[b] == mo[b - 1]);
                    assert(bytes_less(txhash_of(mo[a]), txhash@));
                    lemma_bytes_less_trans(txhash_of(mo[a]), txhash@, txhash_of(mo[b - 1]));
                } else if a == p {
                    assert(ms[b] == mo[b - 1]);
                } else {
                    assert(ms[a] == mo[a - 1] && ms[b] == mo[b - 1]);
                }
            }
            assert forall|k: int| 0 <= k < self.mempool@.len() implies Transaction::wf_model(#[trigger] self.mempool@[k]@) by {
                if k < p {
                    assert(self.mempool@[k] == old(self).mempool@[k]);
                } else if k > p {
                    assert(self.mempool@[k] == old(self).mempool@[k - 1]);
                }
            }
            assert(self.mempool@ == old(self).mempool@.insert(p, tv));
            assert forall|k: int| p <= k < old(self).mempool@.len() implies bytes_less(txhash_of(tv@),
                txhash_of(#[trigger] old(self).mempool@[k]@)) by {
                assert(mo[k] == old(self).mempool@[k]@);
            }
        }
    }

    /// The mempool's transactions.
    pub fn mempool(&self) -> (r: &Vec<Transaction>)
        ensures
            r == self.mempool,
    {
        &self.mempool
    }
}

/// The parent hash that the genesis block names: 32 bytes of `a`.
pub open spec fn genesis_parent() -> Seq<u8> {
    Seq::new(32, |i: int| 97u8)
}

/// The seed of the key that signs the genesis block.
pub const GENESIS_KEY_SEED: u64 = 0xcadfefe;

/// The stake of each genesis validator.
pub const GENESIS_STAKE: u64 = 100;

/// The pre-signed empty block at height 0, notarized by validator 0.
pub fn genesis_block() -> (r: NotarizedBlock)
    ensures
        r.height == 0,
        r.transactions@.len() == 0,
        r.previous_block_hash@ == genesis_parent(),
        r.slot_leader_signature@ == ed25519_signature_of(
            PrivateKey::from_seed_spec(GENESIS_KEY_SEED),
            block_hash_of(0, Seq::empty(), genesis_parent()),
        ),
        r.votes@ == seq![crate::types::Notarization { validator_index: 0, signature: r.slot_leader_signature }],
        NotarizedBlock::wf_model(r@),
{
    let block_data = BlockData {
        height: 0,
        transactions: Vec::new(),
        previous_block_hash: Sha256Digest { data: [97u8; 32] },
    };
    assert(block_data.previous_block_hash@ =~= genesis_parent());
    assert(models(block_data.transactions@) =~= Seq::empty());
    let private_key = PrivateKey::from_seed(GENESIS_KEY_SEED);
    let block_hash = block_data.calculate_block_hash();
    let signature = private_key.sign_hash(block_hash);
    let mut votes: Vec<crate::types::Notarization> = Vec::new();
    votes.push(crate::types::Notarization { validator_index: 0, signature });
    assert(votes@ =~= seq![crate::types::Notarization { validator_index: 0, signature }]);
    NotarizedBlock {
        height: 0,
        transactions: block_data.transactions,
        previous_block_hash: block_data.previous_block_hash,
        slot_leader_signature: signature,
        votes,
    }
}

/// The genesis validator set: the keys from seeds 1 to 5, each with stake 100.
pub fn genesis_epoch_state() -> (r: EpochState)
    ensures
        r.wf(),
        r.validator_data@.len() == 5,
        r.total_validator_stake == 5 * GENESIS_STAKE,
        forall|i: int|
            0 <= i < 5 ==> #[trigger] r.validator_data@[i].stake == GENESIS_STAKE
                && r.validator_data@[i].pub_key@ == ed25519_public_of(
                PrivateKey::from_seed_spec((i + 1) as u64),
            ),
{
    let mut epoch_state = EpochState::new();
    let mut seed: u64 = 1;
    while seed <= 5
        invariant
            1 <= seed <= 6,
            epoch_state.wf(),
            epoch_state.validator_data@.len() == seed - 1,
            epoch_state.total_validator_stake == (seed - 1) * GENESIS_STAKE,
            forall|i: int|
                0 <= i < seed - 1 ==> #[trigger] epoch_state.validator_data@[i].stake == GENESIS_STAKE
                    && epoch_state.validator_data@[i].pub_key@ == ed25519_public_of(
                    PrivateKey::from_seed_spec((i + 1) as u64),
                ),
        decreases 6 - seed,
    {
        let key = PrivateKey::from_seed(seed).public_key();
        let ghost before = epoch_state.validator_data@;
        epoch_state.add_registered_validator(key, GENESIS_STAKE);
        assert forall|i: int|
            0 <= i < seed implies #[trigger] epoch_state.validator_data@[i].stake == GENESIS_STAKE
                && epoch_state.validator_data@[i].pub_key@ == ed25519_public_of(
                PrivateKey::from_seed_spec((i + 1) as u64),
            ) by {
            if i < seed - 1 {
                assert(epoch_state.validator_data@[i] == before[i]);
            }
        }
        seed = seed + 1;
    }
    epoch_state
}


/// Parent linkage: a proposal is refused when the parent it names is not the
/// nearest block below it in the view chain, even when its leader signed it;
/// and it is deferred while that parent is not known locally.
pub proof fn lemma_parent_linkage(m: ValidatorStateMachine, block: Block)
    ensures
        m.leader_of(block.height) is Some && m.nearest_block_hash(block.height - 1) is Some
            && m.nearest_block_hash(block.height - 1)->0 != block.previous_block_hash@
            ==> m.verification_of(block)
            == BlockVerificationResult::Verifiable(false),
        m.nearest_block_hash(block.height - 1) is None ==> m.verification_of(block)
            == BlockVerificationResult::CouldNotVerifyDefer,
{
}

} // verus!
