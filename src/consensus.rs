//! Stake-weighted slot voting: per-slot vote accounting, the verdict that the
//! votes imply, and the validator set of an epoch.

use std::collections::HashMap;

use vstd::prelude::*;

use crate::crypto::{PublicKey, Sha256Digest, Signature};
use crate::types::{Block, Notarization};

verus! {

broadcast use vstd::std_specs::hash::group_hash_axioms;

/// Where a validator's vote at one slot stands.
#[derive(Clone, Copy, Debug, PartialEq)]
pub enum VoteState {
    NoVoteYet,
    VotedForBlock(Sha256Digest),
    VotedForNullification,
}

/// Whether this node, as leader, has proposed its block for a slot.
#[derive(Clone, Copy, Debug, PartialEq, Eq, Structural)]
pub enum LeaderState {
    HasProposedBlock,
    HasNotProposedBlock,
}

/// This node's own progress at one slot.
#[derive(Clone, Copy, Debug, PartialEq)]
pub struct ValidatorSlotState {
    pub vote_state: VoteState,
    pub leader_state: LeaderState,
}

/// The outcome of checking a block proposal against the local view chain.
#[derive(Clone, Copy, Debug, PartialEq, Eq, Structural)]
pub enum BlockVerificationResult {
    /// The parent is known: whether the block is signed by the slot's leader and links to it.
    Verifiable(bool),
    /// The parent is not known yet; the block must be kept and checked again later.
    CouldNotVerifyDefer,
}

/// The votes gathered for one block at one slot.
#[derive(Clone, Debug)]
pub struct BlockCandidateState {
    pub block_hash: Sha256Digest,
    pub voted_stake: u64,
    pub votes: Vec<Notarization>,
}

/// The votes for a block that reached a threshold.
#[derive(Clone, Debug, PartialEq)]
pub struct BlockNotarization {
    pub votes: Vec<Notarization>,
    pub block_hash: Sha256Digest,
    pub height: u64,
}

/// The null votes that reached the nullification threshold.
#[derive(Clone, Debug, PartialEq)]
pub struct NullificationNotarization {
    pub votes: Vec<Notarization>,
    pub height: u64,
}

/// What the votes at a slot imply.
#[derive(Clone, Debug, PartialEq)]
pub enum Consensus {
    FinalizedBlock(BlockNotarization),
    FinalizedNullification(NullificationNotarization),
    /// No block can reach finalization any more.
    ImplicitNullification,
    ViewBlock(BlockNotarization),
    /// No threshold is reached yet.
    Undecided,
}

/// Everything known about the votes and proposals at one slot.
#[derive(Debug)]
pub struct SlotConsensusState {
    pub block_candidates: Vec<BlockCandidateState>,
    pub null_stake: u64,
    pub nullification_votes: Vec<Notarization>,
    pub slot_height: u64,
    pub consumed_validator_indexes: HashMap<u64, VoteState>,
    pub consensus: Consensus,
    pub first_leader_signed_block_received: Option<Block>,
    pub unverified_blocks_received: Vec<Block>,
}

/// Stake needed for a block to enter the view chain, and for a nullification: 40%.
pub open spec fn view_threshold(total: u64) -> int {
    (total as int * 2) / 5
}

/// Stake needed for a block to be finalized: 80%.
pub open spec fn finalization_threshold(total: u64) -> int {
    (total as int * 4) / 5
}

/// The stake of all block votes.
pub open spec fn total_block_stake(cs: Seq<BlockCandidateState>) -> int
    decreases cs.len(),
{
    if cs.len() == 0 {
        0
    } else {
        total_block_stake(cs.drop_last()) + cs.last().voted_stake
    }
}

/// The stake of the leading candidate (0 with none).
pub open spec fn max_block_stake(cs: Seq<BlockCandidateState>) -> int
    decreases cs.len(),
{
    if cs.len() == 0 {
        0
    } else {
        let m = max_block_stake(cs.drop_last());
        if cs.last().voted_stake > m {
            cs.last().voted_stake as int
        } else {
            m
        }
    }
}

/// Candidate `i` is the first, in order, whose stake reaches `t`.
pub open spec fn is_first_reaching(cs: Seq<BlockCandidateState>, i: int, t: int) -> bool {
    &&& 0 <= i < cs.len()
    &&& cs[i].voted_stake >= t
    &&& forall|j: int| 0 <= j < i ==> cs[j].voted_stake < t
}

/// `n` is the notarization of candidate `c` at `height`.
pub open spec fn notarizes(n: BlockNotarization, c: BlockCandidateState, height: u64) -> bool {
    n.votes@ == c.votes@ && n.block_hash == c.block_hash && n.height == height
}

/// The verdict that a slot's votes imply, out of `total` stake: a nullification
/// at 40% null stake; else an implicit nullification once null stake plus the
/// stake of all but the leading candidate reaches 40%; else the first candidate
/// at 40% enters the view, finalized at 80%; else none.
pub open spec fn is_verdict(r: Consensus, slc: SlotConsensusState, total: u64) -> bool {
    let cs = slc.block_candidates@;
    let vt = view_threshold(total);
    if slc.null_stake >= vt {
        r matches Consensus::FinalizedNullification(n) && n.votes@ == slc.nullification_votes@
            && n.height == slc.slot_height
    } else if slc.null_stake + total_block_stake(cs) - max_block_stake(cs) >= vt {
        r is ImplicitNullification
    } else if forall|j: int| 0 <= j < cs.len() ==> cs[j].voted_stake < vt {
        r is Undecided
    } else {
        exists|i: int|
            is_first_reaching(cs, i, vt) && match r {
                Consensus::FinalizedBlock(n) => cs[i].voted_stake >= finalization_threshold(total)
                    && notarizes(n, cs[i], slc.slot_height),
                Consensus::ViewBlock(n) => cs[i].voted_stake < finalization_threshold(total)
                    && notarizes(n, cs[i], slc.slot_height),
                _ => false,
            }
    }
}

/// A copy of a list of votes.
pub fn copy_votes(v: &Vec<Notarization>) -> (r: Vec<Notarization>)
    ensures
        r@ == v@,
{
    let mut r: Vec<Notarization> = Vec::new();
    let mut i: usize = 0;
    while i < v.len()
        invariant
            i <= v@.len(),
            r@ == v@.take(i as int),
        decreases v@.len() - i,
    {
        r.push(v[i]);
        assert(v@.take(i + 1) =~= v@.take(i as int).push(v@[i as int]));
        i = i + 1;
    }
    assert(v@.take(i as int) =~= v@);
    r
}

proof fn lemma_stake_sums_bounded(cs: Seq<BlockCandidateState>)
    ensures
        0 <= max_block_stake(cs) <= total_block_stake(cs) <= cs.len() * (u64::MAX as int),
        forall|j: int| 0 <= j < cs.len() ==> cs[j].voted_stake <= max_block_stake(cs),
    decreases cs.len(),
{
    if cs.len() > 0 {
        lemma_stake_sums_bounded(cs.drop_last());
        assert forall|j: int| 0 <= j < cs.len() implies cs[j].voted_stake <= max_block_stake(cs) by {
            if j < cs.len() - 1 {
                assert(cs[j] == cs.drop_last()[j]);
            }
        }
    }
}

/// `s` is the state of slot `slot_height` before any vote or proposal.
pub open spec fn is_fresh_slot(s: SlotConsensusState, slot_height: u64) -> bool {
    &&& s.slot_height == slot_height
    &&& s.block_candidates@.len() == 0
    &&& s.null_stake == 0
    &&& s.nullification_votes@.len() == 0
    &&& s.consumed_validator_indexes@ == Map::<u64, VoteState>::empty()
    &&& s.consensus is Undecided
    &&& s.first_leader_signed_block_received is None
    &&& s.unverified_blocks_received@.len() == 0
}

impl SlotConsensusState {
    /// A slot with no votes and no proposals yet.
    pub fn new(slot_height: u64) -> (r: SlotConsensusState)
        ensures
            is_fresh_slot(r, slot_height),
            votes_consistent(r),
    {
        SlotConsensusState {
            block_candidates: Vec::new(),
            null_stake: 0,
            nullification_votes: Vec::new(),
            slot_height,
            consumed_validator_indexes: HashMap::new(),
            consensus: Consensus::Undecided,
            first_leader_signed_block_received: None,
            unverified_blocks_received: Vec::new(),
        }
    }

    /// The verdict that this slot's votes imply out of `total_validator_stake`.
    pub fn check_consensus_for_slot(&self, total_validator_stake: u64) -> (r: Consensus)
        ensures
            is_verdict(r, *self, total_validator_stake),
    {
        let cs = &self.block_candidates;
        let vt = (total_validator_stake as u128 * 2 / 5) as u64;
        let ft = (total_validator_stake as u128 * 4 / 5) as u64;
        assert(vt == view_threshold(total_validator_stake));
        assert(ft == finalization_threshold(total_validator_stake));
        if self.null_stake >= vt {
            return Consensus::FinalizedNullification(
                NullificationNotarization {
                    votes: copy_votes(&self.nullification_votes),
                    height: self.slot_height,
                },
            );
        }
        let mut highest: u64 = 0;
        let mut total: u128 = 0;
        let mut i: usize = 0;
        while i < cs.len()
            invariant
                i <= cs@.len(),
                cs@ == self.block_candidates@,
                total == total_block_stake(cs@.take(i as int)),
                highest == max_block_stake(cs@.take(i as int)),
                total <= i * (u64::MAX as int),
            decreases cs@.len() - i,
        {
            proof {
                assert(cs@.take(i + 1).drop_last() =~= cs@.take(i as int));
                assert((i + 1) * (u64::MAX as int) == i * (u64::MAX as int) + u64::MAX)
                    by (nonlinear_arith);
            }
            total = total + cs[i].voted_stake as u128;
            if cs[i].voted_stake > highest {
                highest = cs[i].voted_stake;
            }
            i = i + 1;
        }
        proof {
            assert(cs@.take(i as int) =~= cs@);
            lemma_stake_sums_bounded(cs@);
        }
        if self.null_stake as u128 + (total - highest as u128) >= vt as u128 {
            return Consensus::ImplicitNullification;
        }
        let mut j: usize = 0;
        while j < cs.len()
            invariant
                j <= cs@.len(),
                cs@ == self.block_candidates@,
                vt == view_threshold(total_validator_stake),
                ft == finalization_threshold(total_validator_stake),
                self.null_stake < vt,
                self.null_stake + total_block_stake(cs@) - max_block_stake(cs@) < vt,
                forall|k: int| 0 <= k < j ==> cs@[k].voted_stake < vt,
            decreases cs@.len() - j,
        {
            let c = &cs[j];
            if c.voted_stake >= vt {
                let n = BlockNotarization {
                    block_hash: c.block_hash,
                    height: self.slot_height,
                    votes: copy_votes(&c.votes),
                };
                assert(is_first_reaching(cs@, j as int, vt as int));
                assert(notarizes(n, cs@[j as int], self.slot_height));
                let r = if c.voted_stake >= ft {
                    Consensus::FinalizedBlock(n)
                } else {
                    Consensus::ViewBlock(n)
                };
                assert(is_first_reaching(
                    self.block_candidates@,
                    j as int,
                    view_threshold(total_validator_stake),
                ));
                assert(match r {
                    Consensus::FinalizedBlock(n) => cs@[j as int].voted_stake >= ft && notarizes(
                        n,
                        cs@[j as int],
                        self.slot_height,
                    ),
                    Consensus::ViewBlock(n) => cs@[j as int].voted_stake < ft && notarizes(
                        n,
                        cs@[j as int],
                        self.slot_height,
                    ),
                    _ => false,
                });
                return r;
            }
            j = j + 1;
        }
        Consensus::Undecided
    }
}

/// The result of handling a block vote.
#[derive(Clone, Debug, PartialEq)]
pub enum HandleBlockVoteResult {
    ErrorInvalidSignature,
    ErrorEpochStateDoesNotYetExistForSlot,
    ErrorCouldNotFindValidatorIndex,
    ErrorValidatorHasAlreadyVotedInThisSlot,
    ErrorSlotAlreadyFinalized,
    Success(Consensus),
}

/// The result of handling a null vote.
#[derive(Clone, Debug, PartialEq)]
pub enum HandleNullificationVoteResult {
    ErrorInvalidSignature,
    ErrorEpochStateDoesNotYetExistForSlot,
    ErrorCouldNotFindValidatorIndex,
    ErrorValidatorHasAlreadyVotedNullInThisSlot,
    ErrorSlotAlreadyFinalized,
    Success(Consensus),
}

/// A validator's recorded vote at a slot (none if it has not voted).
pub open spec fn vote_of(consumed: Map<u64, VoteState>, validator_index: u64) -> VoteState {
    if consumed.contains_key(validator_index) {
        consumed[validator_index]
    } else {
        VoteState::NoVoteYet
    }
}

/// Whether a list of votes holds one from `validator_index`.
pub open spec fn has_voter(votes: Seq<Notarization>, validator_index: u64) -> bool {
    exists|j: int| 0 <= j < votes.len() && votes[j].validator_index == validator_index
}

/// `a + b`, or the largest `u64` where the sum does not fit.
pub open spec fn saturating_sum(a: u64, b: u64) -> u64 {
    if a + b > u64::MAX {
        u64::MAX
    } else {
        (a + b) as u64
    }
}

/// The position of the first candidate for `block_hash`, if any.
pub open spec fn candidate_index(cs: Seq<BlockCandidateState>, block_hash: Sha256Digest) -> int {
    if exists|i: int| 0 <= i < cs.len() && cs[i].block_hash == block_hash {
        choose|i: int|
            0 <= i < cs.len() && cs[i].block_hash == block_hash && forall|j: int|
                0 <= j < i ==> cs[j].block_hash != block_hash
    } else {
        -1
    }
}

/// Every validator's recorded vote agrees with where its signature is held:
/// among the null votes exactly when it voted null; with a candidate's votes,
/// unless it voted null, exactly when it voted for that block; and a validator
/// that fled to safety keeps its block vote with at most one candidate. No two
/// candidates share a block, and no validator is held by two candidates.
pub open spec fn votes_consistent(slc: SlotConsensusState) -> bool {
    let cs = slc.block_candidates@;
    let consumed = slc.consumed_validator_indexes@;
    &&& forall|i: int, j: int|
        0 <= i < j < cs.len() ==> cs[i].block_hash != cs[j].block_hash
    &&& forall|v: u64|
        has_voter(slc.nullification_votes@, v) == (vote_of(consumed, v) is VotedForNullification)
    &&& forall|i: int, v: u64|
        0 <= i < cs.len() && !(vote_of(consumed, v) is VotedForNullification) ==> #[trigger] has_voter(
            cs[i].votes@,
            v,
        ) == (vote_of(consumed, v) == VoteState::VotedForBlock(cs[i].block_hash))
    &&& forall|v: u64|
        (#[trigger] vote_of(consumed, v)) is VotedForBlock ==> exists|i: int|
            0 <= i < cs.len() && cs[i].block_hash == vote_of(consumed, v)->VotedForBlock_0
    &&& forall|i: int, j: int, v: u64|
        0 <= i < j < cs.len() && #[trigger] has_voter(cs[i].votes@, v) ==> !#[trigger] has_voter(
            cs[j].votes@,
            v,
        )
    &&& sorted_voters(slc.nullification_votes@)
    &&& forall|i: int| 0 <= i < cs.len() ==> sorted_voters(#[trigger] cs[i].votes@)
}

/// A list of votes in strictly increasing validator index: no validator signs twice.
pub open spec fn sorted_voters(votes: Seq<Notarization>) -> bool {
    forall|a: int, b: int|
        0 <= a < b < votes.len() ==> (#[trigger] votes[a]).validator_index < (
        #[trigger] votes[b]).validator_index
}

/// The votes with `n` put in its place by validator index (behind any of an
/// equal or smaller index, from the back).
pub open spec fn with_vote(votes: Seq<Notarization>, n: Notarization) -> Seq<Notarization>
    decreases votes.len(),
{
    if votes.len() == 0 || votes.last().validator_index <= n.validator_index {
        votes.push(n)
    } else {
        with_vote(votes.drop_last(), n).push(votes.last())
    }
}

proof fn lemma_with_vote_members(votes: Seq<Notarization>, n: Notarization)
    ensures
        with_vote(votes, n).len() == votes.len() + 1,
        forall|i: int|
            0 <= i < with_vote(votes, n).len() ==> #[trigger] with_vote(votes, n)[i] == n || exists|j: int|
                0 <= j < votes.len() && votes[j] == with_vote(votes, n)[i],
        forall|x: u64| #[trigger] has_voter(with_vote(votes, n), x) == (has_voter(votes, x) || x == n.validator_index),
    decreases votes.len(),
{
    let w = with_vote(votes, n);
    if votes.len() == 0 || votes.last().validator_index <= n.validator_index {
        assert forall|i: int| 0 <= i < w.len() implies #[trigger] w[i] == n || exists|j: int|
            0 <= j < votes.len() && votes[j] == w[i] by {
            if i < votes.len() {
                assert(votes[i] == w[i]);
            }
        }
        assert forall|x: u64| #[trigger] has_voter(w, x) == (has_voter(votes, x) || x == n.validator_index) by {
            lemma_has_voter_push(votes, n, x);
        }
    } else {
        let init = votes.drop_last();
        lemma_with_vote_members(init, n);
        let wi = with_vote(init, n);
        assert forall|i: int| 0 <= i < w.len() implies #[trigger] w[i] == n || exists|j: int|
            0 <= j < votes.len() && votes[j] == w[i] by {
            if i < wi.len() {
                assert(w[i] == wi[i]);
                if wi[i] != n {
                    let j = choose|j: int| 0 <= j < init.len() && init[j] == wi[i];
                    assert(votes[j] == init[j]);
                }
            } else {
                assert(votes[votes.len() - 1] == w[i]);
            }
        }
        assert forall|x: u64| #[trigger] has_voter(w, x) == (has_voter(votes, x) || x == n.validator_index) by {
            lemma_has_voter_push(wi, votes.last(), x);
            lemma_has_voter_push(init, votes.last(), x);
            assert(init.push(votes.last()) =~= votes);
        }
    }
}

proof fn lemma_with_vote_sorted(votes: Seq<Notarization>, n: Notarization)
    requires
        sorted_voters(votes),
        !has_voter(votes, n.validator_index),
    ensures
        sorted_voters(with_vote(votes, n)),
    decreases votes.len(),
{
    let w = with_vote(votes, n);
    if votes.len() == 0 || votes.last().validator_index <= n.validator_index {
        if votes.len() > 0 {
            assert(votes[votes.len() - 1] == votes.last());
            assert(votes.last().validator_index != n.validator_index);
        }
        assert forall|a: int, b: int| 0 <= a < b < w.len() implies (#[trigger] w[a]).validator_index
            < (#[trigger] w[b]).validator_index by {
            assert(w[a] == votes[a]);
            if b < votes.len() {
                assert(w[b] == votes[b]);
            } else if a < votes.len() - 1 {
                assert(votes[a].validator_index < votes[votes.len() - 1].validator_index);
            }
        }
    } else {
        let init = votes.drop_last();
        assert(sorted_voters(init)) by {
            assert forall|a: int, b: int| 0 <= a < b < init.len() implies (#[trigger] init[a]).validator_index
                < (#[trigger] init[b]).validator_index by {
                assert(init[a] == votes[a] && init[b] == votes[b]);
            }
        }
        assert(!has_voter(init, n.validator_index)) by {
            if has_voter(init, n.validator_index) {
                let j = choose|j: int| 0 <= j < init.len() && init[j].validator_index == n.validator_index;
                assert(votes[j] == init[j]);
            }
        }
        lemma_with_vote_sorted(init, n);
        lemma_with_vote_members(init, n);
        let wi = with_vote(init, n);
        let last = votes.last();
        assert(votes[votes.len() - 1] == last);
        assert forall|a: int, b: int| 0 <= a < b < w.len() implies (#[trigger] w[a]).validator_index
            < (#[trigger] w[b]).validator_index by {
            assert(w[a] == wi[a]);
            if b < wi.len() {
                assert(w[b] == wi[b]);
            } else {
                assert(w[b] == last);
                if wi[a] != n {
                    let j = choose|j: int| 0 <= j < init.len() && init[j] == wi[a];
                    assert(votes[j] == init[j]);
                }
            }
        }
    }
}

/// Puts a vote in its place by validator index.
fn insert_vote(votes: &mut Vec<Notarization>, n: Notarization)
    ensures
        final(votes)@ == with_vote(old(votes)@, n),
{
    let ghost o = votes@;
    votes.push(n);
    let mut k: usize = votes.len() - 1;
    assert(o.take(k as int) =~= o);
    assert(votes@ =~= o.take(k as int).push(n) + o.skip(k as int));
    assert(o.skip(k as int) =~= Seq::<Notarization>::empty());
    assert(with_vote(o, n) =~= with_vote(o.take(k as int), n) + o.skip(k as int));
    while k > 0 && votes[k - 1].validator_index > n.validator_index
        invariant
            k <= o.len(),
            votes@ == o.take(k as int).push(n) + o.skip(k as int),
            with_vote(o, n) == with_vote(o.take(k as int), n) + o.skip(k as int),
        decreases k,
    {
        let prev = votes[k - 1];
        assert(prev == o[k - 1]);
        votes.set(k - 1, n);
        votes.set(k, prev);
        proof {
            let t = o.take(k as int);
            assert(t.drop_last() =~= o.take(k - 1));
            assert(t.last() == prev);
            assert(with_vote(t, n) == with_vote(o.take(k - 1), n).push(prev));
            assert(o.skip(k - 1) =~= seq![prev] + o.skip(k as int));
            assert(votes@ =~= o.take(k - 1).push(n) + o.skip(k - 1));
            assert(with_vote(o, n) =~= with_vote(o.take(k - 1), n) + o.skip(k - 1));
        }
        k = k - 1;
    }
    proof {
        let t = o.take(k as int);
        if k > 0 {
            assert(t.last() == o[k - 1]);
        }
        assert(with_vote(t, n) == t.push(n));
    }
}

/// Finds the first candidate for a block.
fn find_candidate(cs: &Vec<BlockCandidateState>, block_hash: &Sha256Digest) -> (r: Option<usize>)
    ensures
        match r {
            Some(i) => i == candidate_index(cs@, *block_hash) && i < cs@.len()
                && cs@[i as int].block_hash == *block_hash,
            None => candidate_index(cs@, *block_hash) == -1 && forall|j: int|
                0 <= j < cs@.len() ==> cs@[j].block_hash != *block_hash,
        },
{
    let mut i: usize = 0;
    while i < cs.len()
        invariant
            i <= cs@.len(),
            forall|j: int| 0 <= j < i ==> cs@[j].block_hash != *block_hash,
        decreases cs@.len() - i,
    {
        if cs[i].block_hash == *block_hash {
            assert(0 <= i < cs@.len() && cs@[i as int].block_hash == *block_hash);
            let ghost k = candidate_index(cs@, *block_hash);
            assert(k == i) by {
                if k < i {
                    assert(cs@[k].block_hash != *block_hash);
                }
            }
            return Some(i);
        }
        i = i + 1;
    }
    None
}

/// `b` is a copy of `a`: the same variant with the same votes, hash and height.
pub open spec fn same_consensus(a: Consensus, b: Consensus) -> bool {
    match (a, b) {
        (Consensus::FinalizedBlock(x), Consensus::FinalizedBlock(y)) => x.votes@ == y.votes@
            && x.block_hash == y.block_hash && x.height == y.height,
        (Consensus::ViewBlock(x), Consensus::ViewBlock(y)) => x.votes@ == y.votes@ && x.block_hash
            == y.block_hash && x.height == y.height,
        (
            Consensus::FinalizedNullification(x),
            Consensus::FinalizedNullification(y),
        ) => x.votes@ == y.votes@ && x.height == y.height,
        (Consensus::ImplicitNullification, Consensus::ImplicitNullification) => true,
        (Consensus::Undecided, Consensus::Undecided) => true,
        _ => false,
    }
}

proof fn lemma_verdict_of_copy(a: Consensus, b: Consensus, slc: SlotConsensusState, total: u64)
    requires
        is_verdict(a, slc, total),
        same_consensus(a, b),
    ensures
        is_verdict(b, slc, total),
{
    let cs = slc.block_candidates@;
    let vt = view_threshold(total);
    if slc.null_stake < vt && slc.null_stake + total_block_stake(cs) - max_block_stake(cs) < vt
        && !(forall|j: int| 0 <= j < cs.len() ==> cs[j].voted_stake < vt) {
        let i = choose|i: int|
            is_first_reaching(cs, i, vt) && match a {
                Consensus::FinalizedBlock(n) => cs[i].voted_stake >= finalization_threshold(total)
                    && notarizes(n, cs[i], slc.slot_height),
                Consensus::ViewBlock(n) => cs[i].voted_stake < finalization_threshold(total)
                    && notarizes(n, cs[i], slc.slot_height),
                _ => false,
            };
        assert(is_first_reaching(cs, i, vt) && match b {
            Consensus::FinalizedBlock(n) => cs[i].voted_stake >= finalization_threshold(total)
                && notarizes(n, cs[i], slc.slot_height),
            Consensus::ViewBlock(n) => cs[i].voted_stake < finalization_threshold(total)
                && notarizes(n, cs[i], slc.slot_height),
            _ => false,
        });
    }
}

impl Consensus {
    /// A copy of this verdict.
    pub fn duplicate(&self) -> (r: Consensus)
        ensures
            same_consensus(*self, r),
    {
        match self {
            Consensus::FinalizedBlock(n) => Consensus::FinalizedBlock(
                BlockNotarization {
                    votes: copy_votes(&n.votes),
                    block_hash: n.block_hash,
                    height: n.height,
                },
            ),
            Consensus::ViewBlock(n) => Consensus::ViewBlock(
                BlockNotarization {
                    votes: copy_votes(&n.votes),
                    block_hash: n.block_hash,
                    height: n.height,
                },
            ),
            Consensus::FinalizedNullification(n) => Consensus::FinalizedNullification(
                NullificationNotarization { votes: copy_votes(&n.votes), height: n.height },
            ),
            Consensus::ImplicitNullification => Consensus::ImplicitNullification,
            Consensus::Undecided => Consensus::Undecided,
        }
    }
}

/// `new_cs` is `old_cs` with `n`'s vote for `block_hash` of weight `stake` added:
/// to the first candidate for that block, or to a new candidate at the end.
pub open spec fn block_vote_recorded(
    old_cs: Seq<BlockCandidateState>,
    new_cs: Seq<BlockCandidateState>,
    block_hash: Sha256Digest,
    n: Notarization,
    stake: u64,
) -> bool {
    let i = candidate_index(old_cs, block_hash);
    if i >= 0 {
        &&& new_cs.len() == old_cs.len()
        &&& forall|j: int| 0 <= j < old_cs.len() && j != i ==> new_cs[j] == old_cs[j]
        &&& new_cs[i].block_hash == block_hash
        &&& new_cs[i].voted_stake == saturating_sum(old_cs[i].voted_stake, stake)
        &&& new_cs[i].votes@ == with_vote(old_cs[i].votes@, n)
    } else {
        &&& new_cs.len() == old_cs.len() + 1
        &&& forall|j: int| 0 <= j < old_cs.len() ==> new_cs[j] == old_cs[j]
        &&& new_cs.last().block_hash == block_hash
        &&& new_cs.last().voted_stake == stake
        &&& new_cs.last().votes@ == seq![n]
    }
}

proof fn lemma_has_voter_push(votes: Seq<Notarization>, n: Notarization, v: u64)
    ensures
        has_voter(votes.push(n), v) == (has_voter(votes, v) || n.validator_index == v),
{
    if has_voter(votes, v) {
        let j = choose|j: int| 0 <= j < votes.len() && votes[j].validator_index == v;
        assert(votes.push(n)[j] == votes[j]);
    }
    if n.validator_index == v {
        assert(votes.push(n)[votes.len() as int] == n);
    }
    if has_voter(votes.push(n), v) {
        let j = choose|j: int| 0 <= j < votes.len() + 1 && votes.push(n)[j].validator_index == v;
        if j < votes.len() {
            assert(votes[j] == votes.push(n)[j]);
        }
    }
}

/// The effect of the block vote of `validator_index` for `block_hash` (of
/// weight `stake`) on slot `o`, giving `f` and result `r`: recorded, with the
/// verdict recomputed, if the validator had not voted at the slot; else
/// rejected with nothing changed.
pub open spec fn block_vote_effect(
    o: SlotConsensusState,
    f: SlotConsensusState,
    validator_index: u64,
    block_hash: Sha256Digest,
    signature: Signature,
    stake: u64,
    total_validator_stake: u64,
    r: HandleBlockVoteResult,
) -> bool {
    if vote_of(o.consumed_validator_indexes@, validator_index) is NoVoteYet {
        &&& f.consumed_validator_indexes@ == o.consumed_validator_indexes@.insert(
            validator_index,
            VoteState::VotedForBlock(block_hash),
        )
        &&& block_vote_recorded(
            o.block_candidates@,
            f.block_candidates@,
            block_hash,
            Notarization { validator_index, signature },
            stake,
        )
        &&& f.null_stake == o.null_stake
        &&& f.nullification_votes@ == o.nullification_votes@
        &&& f.slot_height == o.slot_height
        &&& f.first_leader_signed_block_received == o.first_leader_signed_block_received
        &&& f.unverified_blocks_received@ == o.unverified_blocks_received@
        &&& is_verdict(f.consensus, f, total_validator_stake)
        &&& r matches HandleBlockVoteResult::Success(c) && is_verdict(c, f, total_validator_stake)
    } else {
        &&& r is ErrorValidatorHasAlreadyVotedInThisSlot
        &&& f == o
    }
}

/// The effect of the null vote of `validator_index` (of weight `stake`) on slot
/// `o`, giving `f` and result `r`: recorded and the verdict recomputed, unless
/// the validator already voted null; then rejected with nothing changed. A block
/// vote it cast before stays counted with its candidate: only its vote state
/// turns to null, so it can never vote for another block at this slot.
pub open spec fn null_vote_effect(
    o: SlotConsensusState,
    f: SlotConsensusState,
    validator_index: u64,
    signature: Signature,
    stake: u64,
    total_validator_stake: u64,
    r: HandleNullificationVoteResult,
) -> bool {
    if !(vote_of(o.consumed_validator_indexes@, validator_index) is VotedForNullification) {
        &&& f.consumed_validator_indexes@ == o.consumed_validator_indexes@.insert(
            validator_index,
            VoteState::VotedForNullification,
        )
        &&& f.block_candidates == o.block_candidates
        &&& f.null_stake == saturating_sum(o.null_stake, stake)
        &&& f.nullification_votes@ == with_vote(
            o.nullification_votes@,
            Notarization { validator_index, signature },
        )
        &&& f.slot_height == o.slot_height
        &&& f.first_leader_signed_block_received == o.first_leader_signed_block_received
        &&& f.unverified_blocks_received@ == o.unverified_blocks_received@
        &&& is_verdict(f.consensus, f, total_validator_stake)
        &&& r matches HandleNullificationVoteResult::Success(c) && is_verdict(
            c,
            f,
            total_validator_stake,
        )
    } else {
        &&& r is ErrorValidatorHasAlreadyVotedNullInThisSlot
        &&& f == o
    }
}

impl SlotConsensusState {
    /// Records the vote of `validator_index` (of weight `stake`) for `block_hash`,
    /// unless that validator has voted at this slot already, and recomputes the
    /// verdict out of `total_validator_stake`.
    #[verifier::rlimit(40)]
    pub fn apply_block_vote(
        &mut self,
        validator_index: u64,
        block_hash: Sha256Digest,
        signature: Signature,
        stake: u64,
        total_validator_stake: u64,
    ) -> (r: HandleBlockVoteResult)
        ensures
            block_vote_effect(
                *old(self),
                *final(self),
                validator_index,
                block_hash,
                signature,
                stake,
                total_validator_stake,
                r,
            ),
            votes_consistent(*old(self)) ==> votes_consistent(*final(self)),
    {
        let previous = match self.consumed_validator_indexes.get(&validator_index) {
            Some(v) => *v,
            None => VoteState::NoVoteYet,
        };
        match previous {
            VoteState::NoVoteYet => {},
            _ => {
                return HandleBlockVoteResult::ErrorValidatorHasAlreadyVotedInThisSlot;
            },
        }
        let ghost old_self = *self;
        let n = Notarization { validator_index, signature };
        self.consumed_validator_indexes.insert(validator_index, VoteState::VotedForBlock(block_hash));
        match find_candidate(&self.block_candidates, &block_hash) {
            Some(i) => {
                let c = &mut self.block_candidates[i];
                c.voted_stake = if c.voted_stake > u64::MAX - stake {
                    u64::MAX
                } else {
                    c.voted_stake + stake
                };
                insert_vote(&mut c.votes, n);
            },
            None => {
                let mut votes: Vec<Notarization> = Vec::new();
                votes.push(n);
                self.block_candidates.push(BlockCandidateState { block_hash, voted_stake: stake, votes });
            },
        }
        proof {
            if votes_consistent(old_self) {
                lemma_block_vote_consistent(old_self, *self, validator_index, block_hash, n, stake);
            }
        }
        let ghost recorded = *self;
        let verdict = self.check_consensus_for_slot(total_validator_stake);
        self.consensus = verdict.duplicate();
        proof {
            lemma_verdict_of_copy(verdict, self.consensus, *self, total_validator_stake);
            lemma_consistency_ignores_verdict(recorded, *self);
        }
        HandleBlockVoteResult::Success(verdict)
    }
}

proof fn lemma_consistency_ignores_verdict(a: SlotConsensusState, b: SlotConsensusState)
    requires
        b.block_candidates == a.block_candidates,
        b.nullification_votes == a.nullification_votes,
        b.consumed_validator_indexes == a.consumed_validator_indexes,
    ensures
        votes_consistent(a) == votes_consistent(b),
{
}

proof fn lemma_block_vote_consistent(
    old_s: SlotConsensusState,
    new_s: SlotConsensusState,
    idx: u64,
    block_hash: Sha256Digest,
    n: Notarization,
    stake: u64,
)
    requires
        votes_consistent(old_s),
        vote_of(old_s.consumed_validator_indexes@, idx) is NoVoteYet,
        new_s.consumed_validator_indexes@ == old_s.consumed_validator_indexes@.insert(
            idx,
            VoteState::VotedForBlock(block_hash),
        ),
        n.validator_index == idx,
        candidate_index(old_s.block_candidates@, block_hash) >= 0 ==> candidate_index(
            old_s.block_candidates@,
            block_hash,
        ) < old_s.block_candidates@.len() && old_s.block_candidates@[candidate_index(
            old_s.block_candidates@,
            block_hash,
        )].block_hash == block_hash,
        candidate_index(old_s.block_candidates@, block_hash) < 0 ==> forall|j: int|
            0 <= j < old_s.block_candidates@.len() ==> old_s.block_candidates@[j].block_hash
                != block_hash,
        block_vote_recorded(old_s.block_candidates@, new_s.block_candidates@, block_hash, n, stake),
        new_s.nullification_votes@ == old_s.nullification_votes@,
    ensures
        votes_consistent(new_s),
{
    let ocs = old_s.block_candidates@;
    let ncs = new_s.block_candidates@;
    let oc = old_s.consumed_validator_indexes@;
    let nc = new_s.consumed_validator_indexes@;
    let t = candidate_index(ocs, block_hash);
    let ti = if t >= 0 { t } else { ocs.len() as int };
    if t < 0 {
        assert(ncs.last() == ncs[ti]);
    }
    assert forall|i: int, j: int| 0 <= i < j < ncs.len() implies ncs[i].block_hash
        != ncs[j].block_hash by {
        if i != ti && j != ti {
            assert(ncs[i] == ocs[i] && ncs[j] == ocs[j]);
        } else if i == ti {
            assert(ncs[j] == ocs[j]);
        } else {
            assert(ncs[i] == ocs[i]);
        }
    }
    assert forall|v: u64| has_voter(new_s.nullification_votes@, v) == (vote_of(
        nc,
        v,
    ) is VotedForNullification) by {
        if v == idx {
            assert(!has_voter(old_s.nullification_votes@, v));
        }
    }
    assert forall|i: int, v: u64|
        0 <= i < ncs.len() && !(vote_of(nc, v) is VotedForNullification) implies #[trigger] has_voter(
            ncs[i].votes@,
            v,
        ) == (vote_of(nc, v) == VoteState::VotedForBlock(ncs[i].block_hash)) by {
        lemma_block_vote_consistent_at(old_s, new_s, idx, block_hash, n, stake, i, v);
    }
    assert forall|i: int, j: int, v: u64|
        0 <= i < j < ncs.len() && #[trigger] has_voter(ncs[i].votes@, v) implies !#[trigger] has_voter(
            ncs[j].votes@,
            v,
        ) by {
        if v == idx {
            lemma_block_vote_consistent_at(old_s, new_s, idx, block_hash, n, stake, i, v);
            lemma_block_vote_consistent_at(old_s, new_s, idx, block_hash, n, stake, j, v);
        } else {
            lemma_block_vote_holder(old_s, new_s, idx, block_hash, n, stake, i, v);
            lemma_block_vote_holder(old_s, new_s, idx, block_hash, n, stake, j, v);
            if has_voter(ncs[j].votes@, v) {
                assert(has_voter(ocs[i].votes@, v));
                assert(j < ocs.len());
                assert(has_voter(ocs[j].votes@, v));
            }
        }
    }
    assert forall|i: int| 0 <= i < ncs.len() implies sorted_voters(#[trigger] ncs[i].votes@) by {
        if i == ti {
            if t >= 0 {
                assert(!has_voter(ocs[t].votes@, idx));
                lemma_with_vote_sorted(ocs[t].votes@, n);
            } else {
                assert(ncs[i].votes@ == seq![n]);
            }
        } else {
            assert(ncs[i] == ocs[i]);
        }
    }
    assert forall|v: u64| (#[trigger] vote_of(nc, v)) is VotedForBlock implies exists|i: int|
        0 <= i < ncs.len() && ncs[i].block_hash == vote_of(nc, v)->VotedForBlock_0 by {
        if v == idx {
            assert(ncs[ti].block_hash == block_hash);
        } else {
            assert(vote_of(nc, v) == vote_of(oc, v));
            if let VoteState::VotedForBlock(h) = vote_of(oc, v) {
                let w = choose|i: int| 0 <= i < ocs.len() && ocs[i].block_hash == h;
                if w == ti {
                    assert(ncs[w].block_hash == block_hash);
                } else {
                    assert(ncs[w] == ocs[w]);
                }
            }
        }
    }
}


/// After a block vote of `idx`, a candidate holds the vote of another validator
/// exactly when it held it before (a new candidate holds only `idx`).
proof fn lemma_block_vote_holder(
    old_s: SlotConsensusState,
    new_s: SlotConsensusState,
    idx: u64,
    block_hash: Sha256Digest,
    n: Notarization,
    stake: u64,
    i: int,
    v: u64,
)
    requires
        n.validator_index == idx,
        block_vote_recorded(old_s.block_candidates@, new_s.block_candidates@, block_hash, n, stake),
        0 <= i < new_s.block_candidates@.len(),
        v != idx,
    ensures
        i < old_s.block_candidates@.len() ==> has_voter(new_s.block_candidates@[i].votes@, v)
            == has_voter(old_s.block_candidates@[i].votes@, v),
        i >= old_s.block_candidates@.len() ==> !has_voter(new_s.block_candidates@[i].votes@, v),
{
    let ocs = old_s.block_candidates@;
    let ncs = new_s.block_candidates@;
    let t = candidate_index(ocs, block_hash);
    if t >= 0 && i == t {
        lemma_with_vote_members(ocs[t].votes@, n);
    } else if t < 0 && i == ocs.len() {
        assert(ncs.last() == ncs[i]);
        lemma_has_voter_push(Seq::empty(), n, v);
        assert(seq![n] =~= Seq::<Notarization>::empty().push(n));
    } else {
        assert(ncs[i] == ocs[i]);
    }
}

proof fn lemma_block_vote_consistent_at(
    old_s: SlotConsensusState,
    new_s: SlotConsensusState,
    idx: u64,
    block_hash: Sha256Digest,
    n: Notarization,
    stake: u64,
    i: int,
    v: u64,
)
    requires
        votes_consistent(old_s),
        vote_of(old_s.consumed_validator_indexes@, idx) is NoVoteYet,
        new_s.consumed_validator_indexes@ == old_s.consumed_validator_indexes@.insert(
            idx,
            VoteState::VotedForBlock(block_hash),
        ),
        n.validator_index == idx,
        candidate_index(old_s.block_candidates@, block_hash) >= 0 ==> candidate_index(
            old_s.block_candidates@,
            block_hash,
        ) < old_s.block_candidates@.len() && old_s.block_candidates@[candidate_index(
            old_s.block_candidates@,
            block_hash,
        )].block_hash == block_hash,
        candidate_index(old_s.block_candidates@, block_hash) < 0 ==> forall|j: int|
            0 <= j < old_s.block_candidates@.len() ==> old_s.block_candidates@[j].block_hash
                != block_hash,
        block_vote_recorded(old_s.block_candidates@, new_s.block_candidates@, block_hash, n, stake),
        new_s.nullification_votes@ == old_s.nullification_votes@,
        0 <= i < new_s.block_candidates@.len(),
        !(vote_of(new_s.consumed_validator_indexes@, v) is VotedForNullification),
    ensures
        has_voter(new_s.block_candidates@[i].votes@, v) == (vote_of(
            new_s.consumed_validator_indexes@,
            v,
        ) == VoteState::VotedForBlock(new_s.block_candidates@[i].block_hash)),
{
    let ocs = old_s.block_candidates@;
    let ncs = new_s.block_candidates@;
    let oc = old_s.consumed_validator_indexes@;
    let nc = new_s.consumed_validator_indexes@;
    let t = candidate_index(ocs, block_hash);
    let ti = if t >= 0 { t } else { ocs.len() as int };
    if t < 0 {
        assert(ncs.last() == ncs[ti]);
    }

        if v == idx {
            assert(vote_of(nc, v) == VoteState::VotedForBlock(block_hash));
        } else {
            assert(vote_of(nc, v) == vote_of(oc, v));
        }
        if i == ti {
            assert(ncs[i].block_hash == block_hash);
            if t >= 0 {
                assert(ncs[i].votes@ == with_vote(ocs[t].votes@, n));
                lemma_with_vote_members(ocs[t].votes@, n);
                assert(has_voter(ocs[t].votes@, v) == (vote_of(oc, v) == VoteState::VotedForBlock(
                    ocs[t].block_hash,
                )));
            } else {
                assert(ncs[i].votes@ == seq![n]);
                lemma_has_voter_push(Seq::empty(), n, v);
                assert(!has_voter(Seq::<Notarization>::empty(), v));
                if v != idx && vote_of(oc, v) == VoteState::VotedForBlock(block_hash) {
                    let w = choose|w: int| 0 <= w < ocs.len() && ocs[w].block_hash == block_hash;
                }
                assert(seq![n] =~= Seq::<Notarization>::empty().push(n));
            }
        } else {
            assert(ncs[i] == ocs[i]);
            assert(ocs[i].block_hash != block_hash);
            assert(has_voter(ocs[i].votes@, v) == (vote_of(oc, v) == VoteState::VotedForBlock(
                ocs[i].block_hash,
            )));
        }
    }


impl SlotConsensusState {
    /// Records the null vote of `validator_index` (of weight `stake`), unless it
    /// has voted null at this slot already. A block vote it cast before stays
    /// counted. The verdict is recomputed out of `total_validator_stake`.
    #[verifier::rlimit(40)]
    pub fn apply_null_vote(
        &mut self,
        validator_index: u64,
        signature: Signature,
        stake: u64,
        total_validator_stake: u64,
    ) -> (r: HandleNullificationVoteResult)
        ensures
            null_vote_effect(*old(self), *final(self), validator_index, signature, stake, total_validator_stake, r),
            votes_consistent(*old(self)) ==> votes_consistent(*final(self)),
    {
        let previous = match self.consumed_validator_indexes.get(&validator_index) {
            Some(v) => *v,
            None => VoteState::NoVoteYet,
        };
        let ghost old_self = *self;
        if let VoteState::VotedForNullification = previous {
            return HandleNullificationVoteResult::ErrorValidatorHasAlreadyVotedNullInThisSlot;
        }
        let n = Notarization { validator_index, signature };
        self.consumed_validator_indexes.insert(validator_index, VoteState::VotedForNullification);
        self.null_stake = if self.null_stake > u64::MAX - stake {
            u64::MAX
        } else {
            self.null_stake + stake
        };
        insert_vote(&mut self.nullification_votes, n);
        proof {
            if votes_consistent(old_self) {
                lemma_null_vote_consistent(old_self, *self, validator_index, previous, n);
            }
        }
        let ghost recorded = *self;
        let verdict = self.check_consensus_for_slot(total_validator_stake);
        self.consensus = verdict.duplicate();
        proof {
            lemma_verdict_of_copy(verdict, self.consensus, *self, total_validator_stake);
            lemma_consistency_ignores_verdict(recorded, *self);
        }
        HandleNullificationVoteResult::Success(verdict)
    }
}

proof fn lemma_null_vote_consistent(
    old_s: SlotConsensusState,
    new_s: SlotConsensusState,
    idx: u64,
    previous: VoteState,
    n: Notarization,
)
    requires
        votes_consistent(old_s),
        previous == vote_of(old_s.consumed_validator_indexes@, idx),
        !(previous is VotedForNullification),
        new_s.consumed_validator_indexes@ == old_s.consumed_validator_indexes@.insert(
            idx,
            VoteState::VotedForNullification,
        ),
        n.validator_index == idx,
        new_s.block_candidates == old_s.block_candidates,
        new_s.nullification_votes@ == with_vote(old_s.nullification_votes@, n),
    ensures
        votes_consistent(new_s),
{
    let cs = old_s.block_candidates@;
    let oc = old_s.consumed_validator_indexes@;
    let nc = new_s.consumed_validator_indexes@;
    assert forall|v: u64| has_voter(new_s.nullification_votes@, v) == (vote_of(
        nc,
        v,
    ) is VotedForNullification) by {
        lemma_with_vote_members(old_s.nullification_votes@, n);
        assert(has_voter(old_s.nullification_votes@, v) == (vote_of(oc, v) is VotedForNullification));
    }
    assert forall|i: int, v: u64|
        0 <= i < cs.len() && !(vote_of(nc, v) is VotedForNullification) implies #[trigger] has_voter(
            cs[i].votes@,
            v,
        ) == (vote_of(nc, v) == VoteState::VotedForBlock(cs[i].block_hash)) by {
        assert(v != idx);
        assert(vote_of(nc, v) == vote_of(oc, v));
    }
    assert forall|v: u64| (#[trigger] vote_of(nc, v)) is VotedForBlock implies exists|i: int|
        0 <= i < cs.len() && cs[i].block_hash == vote_of(nc, v)->VotedForBlock_0 by {
        assert(v != idx);
        assert(vote_of(nc, v) == vote_of(oc, v));
    }
    assert(!has_voter(old_s.nullification_votes@, idx));
    lemma_with_vote_sorted(old_s.nullification_votes@, n);
}

/// One validator of an epoch.
#[derive(Clone, Copy, Debug, PartialEq)]
pub struct ValidatorData {
    pub stake: u64,
    pub validator_index: u64,
    pub pub_key: PublicKey,
}

/// The sum of the validators' stakes.
pub open spec fn stake_sum(vs: Seq<ValidatorData>) -> int
    decreases vs.len(),
{
    if vs.len() == 0 {
        0
    } else {
        stake_sum(vs.drop_last()) + vs.last().stake
    }
}

/// The stake of validator `v` in the validator set `ws` (none for an unknown index).
pub open spec fn weight_of(ws: Seq<ValidatorData>, v: u64) -> int {
    if v < ws.len() {
        ws[v as int].stake as int
    } else {
        0
    }
}

/// The stake of the validators that cast `votes`.
pub open spec fn voters_stake(votes: Seq<Notarization>, ws: Seq<ValidatorData>) -> int
    decreases votes.len(),
{
    if votes.len() == 0 {
        0
    } else {
        voters_stake(votes.drop_last(), ws) + weight_of(ws, votes.last().validator_index)
    }
}

/// Every vote of `votes` was cast by a validator of `ws`.
pub open spec fn voters_known(votes: Seq<Notarization>, ws: Seq<ValidatorData>) -> bool {
    forall|k: int| 0 <= k < votes.len() ==> (#[trigger] votes[k]).validator_index < ws.len()
}

/// The stake of each candidate and the null stake are what their voters hold
/// in `ws`, and every voter is a validator of `ws`.
pub open spec fn stakes_accounted(slc: SlotConsensusState, ws: Seq<ValidatorData>) -> bool {
    let cs = slc.block_candidates@;
    &&& slc.null_stake == voters_stake(slc.nullification_votes@, ws)
    &&& voters_known(slc.nullification_votes@, ws)
    &&& forall|i: int|
        0 <= i < cs.len() ==> (#[trigger] cs[i]).voted_stake == voters_stake(cs[i].votes@, ws)
            && voters_known(cs[i].votes@, ws)
}

proof fn lemma_stake_sum_nonneg(ws: Seq<ValidatorData>)
    ensures
        stake_sum(ws) >= 0,
    decreases ws.len(),
{
    if ws.len() > 0 {
        lemma_stake_sum_nonneg(ws.drop_last());
    }
}

proof fn lemma_stake_sum_prefix(ws: Seq<ValidatorData>, a: int, b: int)
    requires
        0 <= a <= b <= ws.len(),
    ensures
        stake_sum(ws.take(a)) <= stake_sum(ws.take(b)),
    decreases b - a,
{
    if a < b {
        lemma_stake_sum_prefix(ws, a, b - 1);
        assert(ws.take(b).drop_last() =~= ws.take(b - 1));
    }
}

proof fn lemma_voters_stake_below(votes: Seq<Notarization>, ws: Seq<ValidatorData>, m: int)
    requires
        sorted_voters(votes),
        0 <= m <= ws.len(),
        forall|k: int| 0 <= k < votes.len() ==> (#[trigger] votes[k]).validator_index < m,
    ensures
        voters_stake(votes, ws) <= stake_sum(ws.take(m)),
    decreases votes.len(),
{
    if votes.len() == 0 {
        lemma_stake_sum_nonneg(ws.take(m));
    } else {
        let l = votes.last().validator_index as int;
        let init = votes.drop_last();
        assert forall|k: int| 0 <= k < init.len() implies (#[trigger] init[k]).validator_index < l by {
            assert(init[k] == votes[k]);
            assert(votes[votes.len() - 1] == votes.last());
        }
        assert(sorted_voters(init)) by {
            assert forall|a: int, b: int| 0 <= a < b < init.len() implies (#[trigger] init[a]).validator_index
                < (#[trigger] init[b]).validator_index by {
                assert(init[a] == votes[a] && init[b] == votes[b]);
            }
        }
        assert(votes[votes.len() - 1] == votes.last());
        lemma_voters_stake_below(init, ws, l);
        assert(ws.take(l + 1).drop_last() =~= ws.take(l));
        lemma_stake_sum_prefix(ws, l + 1, m);
    }
}

/// The stake of distinct known voters is at most the total stake.
pub(crate) proof fn lemma_voters_stake_bounded(votes: Seq<Notarization>, ws: Seq<ValidatorData>)
    requires
        sorted_voters(votes),
        voters_known(votes, ws),
    ensures
        voters_stake(votes, ws) <= stake_sum(ws),
{
    lemma_voters_stake_below(votes, ws, ws.len() as int);
    assert(ws.take(ws.len() as int) =~= ws);
}

proof fn lemma_with_vote_stake(votes: Seq<Notarization>, n: Notarization, ws: Seq<ValidatorData>)
    ensures
        voters_stake(with_vote(votes, n), ws) == voters_stake(votes, ws) + weight_of(ws, n.validator_index),
    decreases votes.len(),
{
    if votes.len() == 0 || votes.last().validator_index <= n.validator_index {
        assert(votes.push(n).drop_last() =~= votes);
    } else {
        lemma_with_vote_stake(votes.drop_last(), n, ws);
        let w = with_vote(votes.drop_last(), n);
        assert(w.push(votes.last()).drop_last() =~= w);
    }
}

proof fn lemma_voters_known_with_vote(votes: Seq<Notarization>, n: Notarization, ws: Seq<ValidatorData>)
    requires
        voters_known(votes, ws),
        n.validator_index < ws.len(),
    ensures
        voters_known(with_vote(votes, n), ws),
{
    lemma_with_vote_members(votes, n);
    let w = with_vote(votes, n);
    assert forall|k: int| 0 <= k < w.len() implies (#[trigger] w[k]).validator_index < ws.len() by {
        if w[k] != n {
            let j = choose|j: int| 0 <= j < votes.len() && votes[j] == w[k];
            assert(votes[j].validator_index < ws.len());
        }
    }
}

/// A recorded block vote of a validator of `ws`, with its stake there, keeps
/// the stakes accounted; the stakes never reach the saturation bound.
pub(crate) proof fn lemma_block_vote_accounted(
    o: SlotConsensusState,
    f: SlotConsensusState,
    validator_index: u64,
    block_hash: Sha256Digest,
    signature: Signature,
    ws: Seq<ValidatorData>,
    total_validator_stake: u64,
    r: HandleBlockVoteResult,
)
    requires
        validator_index < ws.len(),
        block_vote_effect(o, f, validator_index, block_hash, signature, ws[validator_index as int].stake, total_validator_stake, r),
        votes_consistent(o),
        votes_consistent(f),
        stakes_accounted(o, ws),
        stake_sum(ws) <= u64::MAX,
    ensures
        stakes_accounted(f, ws),
{
    if vote_of(o.consumed_validator_indexes@, validator_index) is NoVoteYet {
        let ocs = o.block_candidates@;
        let fcs = f.block_candidates@;
        let n = Notarization { validator_index, signature };
        let stake = ws[validator_index as int].stake;
        let i = candidate_index(ocs, block_hash);
        if i >= 0 {
            assert(fcs[i] == fcs[i]);
            lemma_with_vote_stake(ocs[i].votes@, n, ws);
            lemma_voters_known_with_vote(ocs[i].votes@, n, ws);
            lemma_voters_stake_bounded(fcs[i].votes@, ws);
            assert(fcs[i].voted_stake == voters_stake(fcs[i].votes@, ws));
            assert forall|j: int| 0 <= j < fcs.len() implies (#[trigger] fcs[j]).voted_stake == voters_stake(fcs[j].votes@, ws)
                && voters_known(fcs[j].votes@, ws) by {
                if j != i {
                    assert(fcs[j] == ocs[j]);
                }
            }
        } else {
            let last = fcs.len() - 1;
            assert(fcs[last] == fcs.last());
            assert(fcs.last().votes@.drop_last() =~= Seq::<Notarization>::empty());
            assert(fcs.last().votes@[0] == n);
            assert(voters_stake(fcs[last].votes@, ws) == voters_stake(fcs[last].votes@.drop_last(), ws)
                + weight_of(ws, validator_index));
            assert(voters_known(fcs[last].votes@, ws));
            assert forall|j: int| 0 <= j < fcs.len() implies (#[trigger] fcs[j]).voted_stake == voters_stake(fcs[j].votes@, ws)
                && voters_known(fcs[j].votes@, ws) by {
                if j != last {
                    assert(fcs[j] == ocs[j]);
                }
            }
        }
    }
}

/// A recorded null vote of a validator of `ws`, with its stake there, keeps
/// the stakes accounted; the null stake never reaches the saturation bound.
pub(crate) proof fn lemma_null_vote_accounted(
    o: SlotConsensusState,
    f: SlotConsensusState,
    validator_index: u64,
    signature: Signature,
    ws: Seq<ValidatorData>,
    total_validator_stake: u64,
    r: HandleNullificationVoteResult,
)
    requires
        validator_index < ws.len(),
        null_vote_effect(o, f, validator_index, signature, ws[validator_index as int].stake, total_validator_stake, r),
        votes_consistent(o),
        votes_consistent(f),
        stakes_accounted(o, ws),
        stake_sum(ws) <= u64::MAX,
    ensures
        stakes_accounted(f, ws),
{
    if !(vote_of(o.consumed_validator_indexes@, validator_index) is VotedForNullification) {
        let n = Notarization { validator_index, signature };
        lemma_with_vote_stake(o.nullification_votes@, n, ws);
        lemma_voters_known_with_vote(o.nullification_votes@, n, ws);
        lemma_voters_stake_bounded(f.nullification_votes@, ws);
    }
}

/// The position of the first validator registered with `key`, or -1.
pub open spec fn key_position(vs: Seq<ValidatorData>, key: PublicKey) -> int {
    if exists|i: int| 0 <= i < vs.len() && vs[i].pub_key == key {
        choose|i: int|
            0 <= i < vs.len() && vs[i].pub_key == key && forall|j: int|
                0 <= j < i ==> vs[j].pub_key != key
    } else {
        -1
    }
}

/// The validator set of an epoch, indexed densely in order of registration.
#[derive(Clone, Debug)]
pub struct EpochState {
    pub validator_data: Vec<ValidatorData>,
    pub total_validator_stake: u64,
}

impl EpochState {
    /// Each validator's index is its position, and the total stake is the sum of the stakes.
    pub open spec fn wf(self) -> bool {
        &&& forall|i: int|
            0 <= i < self.validator_data@.len() ==> #[trigger] self.validator_data@[i].validator_index
                == i
        &&& self.total_validator_stake == stake_sum(self.validator_data@)
    }

    /// An epoch with no validators.
    pub fn new() -> (r: EpochState)
        ensures
            r.validator_data@.len() == 0,
            r.total_validator_stake == 0,
            r.wf(),
    {
        EpochState { validator_data: Vec::new(), total_validator_stake: 0 }
    }

    /// The validator with the given index, if there is one.
    pub fn get_validator_data(&self, validator_index: u64) -> (r: Option<ValidatorData>)
        ensures
            validator_index < self.validator_data@.len() ==> r == Some(
                self.validator_data@[validator_index as int],
            ),
            validator_index >= self.validator_data@.len() ==> r is None,
    {
        if validator_index < self.validator_data.len() as u64 {
            Some(self.validator_data[validator_index as usize])
        } else {
            None
        }
    }

    /// The first validator registered with the given key, if any.
    pub fn get_validator_by_key(&self, pub_key: &PublicKey) -> (r: Option<ValidatorData>)
        ensures
            key_position(self.validator_data@, *pub_key) >= 0 ==> r == Some(
                self.validator_data@[key_position(self.validator_data@, *pub_key)],
            ),
            key_position(self.validator_data@, *pub_key) < 0 ==> r is None,
            r is None <==> forall|j: int|
                0 <= j < self.validator_data@.len() ==> self.validator_data@[j].pub_key != *pub_key,
    {
        let mut i: usize = 0;
        while i < self.validator_data.len()
            invariant
                i <= self.validator_data@.len(),
                forall|j: int| 0 <= j < i ==> self.validator_data@[j].pub_key != *pub_key,
            decreases self.validator_data@.len() - i,
        {
            if self.validator_data[i].pub_key == *pub_key {
                let ghost k = key_position(self.validator_data@, *pub_key);
                assert(0 <= i < self.validator_data@.len() && self.validator_data@[i as int].pub_key
                    == *pub_key);
                assert(k == i) by {
                    if k < i {
                        assert(self.validator_data@[k].pub_key != *pub_key);
                    }
                }
                return Some(self.validator_data[i]);
            }
            i = i + 1;
        }
        None
    }

    /// Registers a validator with the next index.
    pub fn add_registered_validator(&mut self, pub_key: PublicKey, stake: u64)
        requires
            old(self).total_validator_stake + stake <= u64::MAX,
        ensures
            final(self).validator_data@ == old(self).validator_data@.push(
                ValidatorData {
                    stake,
                    validator_index: old(self).validator_data@.len() as u64,
                    pub_key,
                },
            ),
            final(self).total_validator_stake == old(self).total_validator_stake + stake,
            old(self).wf() ==> final(self).wf(),
    {
        let validator_index = self.validator_data.len() as u64;
        self.validator_data.push(ValidatorData { stake, validator_index, pub_key });
        self.total_validator_stake = self.total_validator_stake + stake;
        assert(self.validator_data@.drop_last() =~= old(self).validator_data@);
    }
}


/// What the view chain does with a slot's verdict.
#[derive(Clone, Copy, Debug, PartialEq, Eq, Structural)]
pub enum ViewTransition {
    AddBlock,
    AddNullification,
    Stay,
}

/// The view transition that a node accepts given its own vote at the slot:
/// without a vote, any nullification or block verdict; after voting for a
/// block, a nullification, a finalized block, or the view of that same block;
/// after voting null, only finalized verdicts.
pub open spec fn accepted_transition(vote: VoteState, verdict: Consensus) -> ViewTransition {
    match verdict {
        Consensus::FinalizedNullification(_) => ViewTransition::AddNullification,
        Consensus::FinalizedBlock(_) => ViewTransition::AddBlock,
        Consensus::ViewBlock(n) => match vote {
            VoteState::NoVoteYet => ViewTransition::AddBlock,
            VoteState::VotedForBlock(h) => if n.block_hash == h {
                ViewTransition::AddBlock
            } else {
                ViewTransition::Stay
            },
            VoteState::VotedForNullification => ViewTransition::Stay,
        },
        _ => ViewTransition::Stay,
    }
}

/// The view transition that a node accepts given its own vote at the slot.
pub fn view_transition(vote: &VoteState, verdict: &Consensus) -> (r: ViewTransition)
    ensures
        r == accepted_transition(*vote, *verdict),
{
    match verdict {
        Consensus::FinalizedNullification(_) => ViewTransition::AddNullification,
        Consensus::FinalizedBlock(_) => ViewTransition::AddBlock,
        Consensus::ViewBlock(n) => match vote {
            VoteState::NoVoteYet => ViewTransition::AddBlock,
            VoteState::VotedForBlock(h) => if n.block_hash == *h {
                ViewTransition::AddBlock
            } else {
                ViewTransition::Stay
            },
            VoteState::VotedForNullification => ViewTransition::Stay,
        },
        _ => ViewTransition::Stay,
    }
}

/// The first vote a validator casts at a slot.
#[derive(Clone, Copy, Debug, PartialEq, Eq, Structural)]
pub enum FirstVote {
    /// The proposal deadline passed: vote null.
    Null,
    /// Vote for the verified proposal.
    Block,
    Wait,
}

/// Until it has voted, a validator votes null once the proposal deadline has
/// passed, else for a verified proposal once it has one, else waits.
pub open spec fn first_vote_of(vote: VoteState, deadline_expired: bool, has_proposal: bool) -> FirstVote {
    if !(vote is NoVoteYet) {
        FirstVote::Wait
    } else if deadline_expired {
        FirstVote::Null
    } else if has_proposal {
        FirstVote::Block
    } else {
        FirstVote::Wait
    }
}

/// The first vote a validator casts at a slot, given its vote so far.
pub fn first_vote(vote: &VoteState, deadline_expired: bool, has_proposal: bool) -> (r: FirstVote)
    ensures
        r == first_vote_of(*vote, deadline_expired, has_proposal),
{
    match vote {
        VoteState::NoVoteYet => if deadline_expired {
            FirstVote::Null
        } else if has_proposal {
            FirstVote::Block
        } else {
            FirstVote::Wait
        },
        _ => FirstVote::Wait,
    }
}

/// A validator that voted for a block flees to safety, voting null, once the
/// slot is implicitly nullified: no block can be finalized there any more.
pub open spec fn flees_to_safety(vote: VoteState, verdict: Consensus) -> bool {
    vote is VotedForBlock && verdict is ImplicitNullification
}

/// Whether a validator must now vote null after its block vote.
pub fn should_flee_to_safety(vote: &VoteState, verdict: &Consensus) -> (r: bool)
    ensures
        r == flees_to_safety(*vote, *verdict),
{
    matches!(vote, VoteState::VotedForBlock(_)) && matches!(verdict, Consensus::ImplicitNullification)
}


/// No double voting: where a slot's votes are consistent, a validator's block
/// vote is held by at most one candidate, and a validator whose vote is held
/// both with a block and among the null votes is one that turned its block
/// vote into a null vote, the one transition allowed.
pub proof fn lemma_one_active_vote(slc: SlotConsensusState, v: u64)
    requires
        votes_consistent(slc),
    ensures
        forall|i: int|
            0 <= i < slc.block_candidates@.len() && has_voter(slc.block_candidates@[i].votes@, v)
                && has_voter(slc.nullification_votes@, v) ==> vote_of(
                slc.consumed_validator_indexes@,
                v,
            ) is VotedForNullification,
        forall|i: int, j: int|
            0 <= i < slc.block_candidates@.len() && 0 <= j < slc.block_candidates@.len()
                && has_voter(slc.block_candidates@[i].votes@, v) && has_voter(
                slc.block_candidates@[j].votes@,
                v,
            ) ==> i == j,
{
    let cs = slc.block_candidates@;
    assert forall|i: int, j: int|
        0 <= i < cs.len() && 0 <= j < cs.len() && has_voter(cs[i].votes@, v) && has_voter(
            cs[j].votes@,
            v,
        ) implies i == j by {
        if i < j {
            assert(!has_voter(cs[j].votes@, v));
        } else if j < i {
            assert(!has_voter(cs[i].votes@, v));
        }
    }
}

/// A validator gets one vote per slot: once it has voted there, a further block
/// vote is refused and changes nothing, whatever block it names.
pub proof fn lemma_repeat_block_vote_refused(
    o: SlotConsensusState,
    f: SlotConsensusState,
    g: SlotConsensusState,
    validator_index: u64,
    first_hash: Sha256Digest,
    second_hash: Sha256Digest,
    first_signature: Signature,
    second_signature: Signature,
    stake: u64,
    total: u64,
    r1: HandleBlockVoteResult,
    r2: HandleBlockVoteResult,
)
    requires
        block_vote_effect(o, f, validator_index, first_hash, first_signature, stake, total, r1),
        block_vote_effect(f, g, validator_index, second_hash, second_signature, stake, total, r2),
    ensures
        r2 is ErrorValidatorHasAlreadyVotedInThisSlot,
        g == f,
{
}

/// Once a validator has voted null at a slot, a further null vote is refused and
/// changes nothing, and so is a block vote.
pub proof fn lemma_repeat_null_vote_refused(
    o: SlotConsensusState,
    f: SlotConsensusState,
    validator_index: u64,
    signature: Signature,
    stake: u64,
    total: u64,
    r1: HandleNullificationVoteResult,
    g: SlotConsensusState,
    second_signature: Signature,
    r2: HandleNullificationVoteResult,
    block_hash: Sha256Digest,
    h: SlotConsensusState,
    r3: HandleBlockVoteResult,
)
    requires
        null_vote_effect(o, f, validator_index, signature, stake, total, r1),
        null_vote_effect(f, g, validator_index, second_signature, stake, total, r2),
        block_vote_effect(f, h, validator_index, block_hash, second_signature, stake, total, r3),
    ensures
        r2 is ErrorValidatorHasAlreadyVotedNullInThisSlot,
        g == f,
        r3 is ErrorValidatorHasAlreadyVotedInThisSlot,
        h == f,
{
}

/// Flight to safety: a validator that voted for a block and then votes null has
/// its vote accepted, now counted among the null votes, and its local vote
/// state is null; a further null vote from it is refused.
pub proof fn lemma_flight_to_safety(
    o: SlotConsensusState,
    f: SlotConsensusState,
    g: SlotConsensusState,
    validator_index: u64,
    signature: Signature,
    second_signature: Signature,
    stake: u64,
    total: u64,
    r1: HandleNullificationVoteResult,
    r2: HandleNullificationVoteResult,
)
    requires
        vote_of(o.consumed_validator_indexes@, validator_index) is VotedForBlock,
        null_vote_effect(o, f, validator_index, signature, stake, total, r1),
        null_vote_effect(f, g, validator_index, second_signature, stake, total, r2),
    ensures
        r1 is Success,
        vote_of(f.consumed_validator_indexes@, validator_index) is VotedForNullification,
        has_voter(f.nullification_votes@, validator_index),
        r2 is ErrorValidatorHasAlreadyVotedNullInThisSlot,
        g == f,
{
    let n = Notarization { validator_index, signature };
    lemma_with_vote_members(o.nullification_votes@, n);
}

proof fn lemma_single_candidate_sums(cs: Seq<BlockCandidateState>)
    requires
        cs.len() == 1,
    ensures
        total_block_stake(cs) == cs[0].voted_stake,
        max_block_stake(cs) == cs[0].voted_stake,
{
    assert(cs.drop_last() =~= Seq::<BlockCandidateState>::empty());
    assert(total_block_stake(cs.drop_last()) == 0);
    assert(max_block_stake(cs.drop_last()) == 0);
    assert(cs.last() == cs[0]);
}

/// Threshold monotonicity: with one candidate and no null stake, out of a total
/// whose 40% is not zero, the verdict is none below 40% of the stake, the view
/// of the block from 40%, and its finalization from 80%.
pub proof fn lemma_block_thresholds(slc: SlotConsensusState, total: u64, r: Consensus)
    requires
        is_verdict(r, slc, total),
        slc.block_candidates@.len() == 1,
        slc.null_stake == 0,
        view_threshold(total) > 0,
    ensures
        slc.block_candidates@[0].voted_stake < view_threshold(total) ==> r is Undecided,
        view_threshold(total) <= slc.block_candidates@[0].voted_stake < finalization_threshold(
            total,
        ) ==> (r matches Consensus::ViewBlock(n) && notarizes(
            n,
            slc.block_candidates@[0],
            slc.slot_height,
        )),
        slc.block_candidates@[0].voted_stake >= finalization_threshold(total) ==> (r matches Consensus::FinalizedBlock(n) && notarizes(
            n,
            slc.block_candidates@[0],
            slc.slot_height,
        )),
{
    let cs = slc.block_candidates@;
    lemma_single_candidate_sums(cs);
    if cs[0].voted_stake >= view_threshold(total) {
        let i = choose|i: int|
            is_first_reaching(cs, i, view_threshold(total)) && match r {
                Consensus::FinalizedBlock(n) => cs[i].voted_stake >= finalization_threshold(total)
                    && notarizes(n, cs[i], slc.slot_height),
                Consensus::ViewBlock(n) => cs[i].voted_stake < finalization_threshold(total)
                    && notarizes(n, cs[i], slc.slot_height),
                _ => false,
            };
        assert(i == 0);
    }
}

/// The nullification threshold: once the null stake reaches 40% of the total,
/// the verdict is a finalized nullification carrying all the null votes.
pub proof fn lemma_nullification_threshold(slc: SlotConsensusState, total: u64, r: Consensus)
    requires
        is_verdict(r, slc, total),
        slc.null_stake >= view_threshold(total),
    ensures
        r matches Consensus::FinalizedNullification(n) && n.votes@ == slc.nullification_votes@
            && n.height == slc.slot_height,
{
}

/// Implicit nullification: below the nullification threshold, once the null
/// stake plus the stake of every candidate but the leading one reaches 40% of
/// the total, no block can be finalized and the verdict says so; until then the
/// leading candidate's view is not held back by the null stake.
pub proof fn lemma_implicit_nullification(slc: SlotConsensusState, total: u64, r: Consensus)
    requires
        is_verdict(r, slc, total),
        slc.null_stake < view_threshold(total),
    ensures
        slc.null_stake + total_block_stake(slc.block_candidates@) - max_block_stake(
            slc.block_candidates@,
        ) >= view_threshold(total) ==> r is ImplicitNullification,
        slc.block_candidates@.len() == 1 && slc.block_candidates@[0].voted_stake >= view_threshold(
            total,
        ) ==> r is ViewBlock || r is FinalizedBlock,
{
    if slc.block_candidates@.len() == 1 {
        lemma_single_candidate_sums(slc.block_candidates@);
    }
}

} // verus!
