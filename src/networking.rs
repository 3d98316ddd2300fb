//! The protocol router: what each inbound payload asks of the node, the
//! replies to read-only queries built from stored outcomes, the payloads this
//! node sends, and the table that pairs responses with pending requests.

use vstd::prelude::*;

use crate::codec::{decode, decoded, encode, Wire};
use crate::messages::{
    GetBlockReply, GetBlockRequest, GetNotarizationNotarizationType, GetNotarizationReply,
    GetNotarizationRequest, GetNotarizationState, MessageType, Payload, PayloadModel, PayloadType,
};
use crate::types::{
    calculate_null_hash, copy_transactions, null_hash_of, Block, BlockVote,
    NullVote, SlotState, Transaction,
};
use crate::codec::models;
use crate::consensus::copy_votes;

verus! {

/// Milliseconds a request waits for its response.
pub const REQUEST_TIMEOUT_MS: u64 = 10000;

/// How many heights past the asked one a query reply covers.
pub const QUERY_SPAN: u64 = 100;

/// What an inbound statement or request asks of this node.
#[derive(Clone, Debug, PartialEq)]
pub enum Inbound {
    BlockVote(BlockVote),
    NullVote(NullVote),
    BlockProposal(Block),
    /// A gossiped transaction, for the mempool.
    Transaction(Transaction),
    /// A submitted transaction, for the mempool and to be gossiped to every peer.
    TransactionRebroadcast(Transaction),
    GetNotarization(GetNotarizationRequest),
    GetBlocks(GetBlockRequest),
    GetPeers,
    /// Undecodable, or a reply that nothing asked for: dropped.
    Ignored,
}

/// What the content of a payload of type `t` asks, given how it decodes.
pub open spec fn routed(r: Inbound, p: PayloadModel) -> bool {
    let c = p.content;
    match p.payload_type {
        PayloadType::VoteBlock => match decoded::<BlockVote>(c) {
            Ok(v) => r matches Inbound::BlockVote(x) && x@ == v,
            Err(_) => r is Ignored,
        },
        PayloadType::VoteNull => match decoded::<NullVote>(c) {
            Ok(v) => r matches Inbound::NullVote(x) && x@ == v,
            Err(_) => r is Ignored,
        },
        PayloadType::BlockProposal => match decoded::<Block>(c) {
            Ok(v) => r matches Inbound::BlockProposal(x) && x@ == v,
            Err(_) => r is Ignored,
        },
        PayloadType::TransactionGossip => match decoded::<Transaction>(c) {
            Ok(v) => r matches Inbound::Transaction(x) && x@ == v,
            Err(_) => r is Ignored,
        },
        PayloadType::TransactionSubmitBroadcast => match decoded::<Transaction>(c) {
            Ok(v) => r matches Inbound::TransactionRebroadcast(x) && x@ == v,
            Err(_) => r is Ignored,
        },
        PayloadType::GetNotarizationRequest => match decoded::<GetNotarizationRequest>(c) {
            Ok(v) => r matches Inbound::GetNotarization(x) && x@ == v,
            Err(_) => r is Ignored,
        },
        PayloadType::GetBlockRequest => match decoded::<GetBlockRequest>(c) {
            Ok(v) => r matches Inbound::GetBlocks(x) && x@ == v,
            Err(_) => r is Ignored,
        },
        PayloadType::GetPeersRequest => r is GetPeers,
        _ => r is Ignored,
    }
}

/// Decodes an inbound payload and says what it asks of this node.
pub fn route_payload(bytes: &[u8]) -> (r: Inbound)
    ensures
        match decoded::<Payload>(bytes@) {
            Err(_) => r is Ignored,
            Ok(p) => routed(r, p),
        },
        r matches Inbound::BlockProposal(b) ==> Block::wf_model(b@),
        r matches Inbound::Transaction(t) ==> Transaction::wf_model(t@),
        r matches Inbound::TransactionRebroadcast(t) ==> Transaction::wf_model(t@),
{
    let payload = match decode::<Payload>(bytes) {
        Err(_) => return Inbound::Ignored,
        Ok(p) => p,
    };
    let c = payload.content.as_slice();
    match payload.payload_type {
        PayloadType::VoteBlock => match decode::<BlockVote>(c) {
            Ok(v) => Inbound::BlockVote(v),
            Err(_) => Inbound::Ignored,
        },
        PayloadType::VoteNull => match decode::<NullVote>(c) {
            Ok(v) => Inbound::NullVote(v),
            Err(_) => Inbound::Ignored,
        },
        PayloadType::BlockProposal => match decode::<Block>(c) {
            Ok(v) => {
                proof {
                    Block::lemma_parse_wf(c@);
                }
                Inbound::BlockProposal(v)
            },
            Err(_) => Inbound::Ignored,
        },
        PayloadType::TransactionGossip => match decode::<Transaction>(c) {
            Ok(v) => {
                proof {
                    Transaction::lemma_parse_wf(c@);
                }
                Inbound::Transaction(v)
            },
            Err(_) => Inbound::Ignored,
        },
        PayloadType::TransactionSubmitBroadcast => match decode::<Transaction>(c) {
            Ok(v) => {
                proof {
                    Transaction::lemma_parse_wf(c@);
                }
                Inbound::TransactionRebroadcast(v)
            },
            Err(_) => Inbound::Ignored,
        },
        PayloadType::GetNotarizationRequest => match decode::<GetNotarizationRequest>(c) {
            Ok(v) => Inbound::GetNotarization(v),
            Err(_) => Inbound::Ignored,
        },
        PayloadType::GetBlockRequest => match decode::<GetBlockRequest>(c) {
            Ok(v) => Inbound::GetBlocks(v),
            Err(_) => Inbound::Ignored,
        },
        PayloadType::GetPeersRequest => Inbound::GetPeers,
        _ => Inbound::Ignored,
    }
}

/// The payload of type `payload_type` carrying the encoding of `content`.
pub fn make_payload<T: Wire>(payload_type: PayloadType, content: &T) -> (r: Vec<u8>)
    requires
        T::wf_model(content@),
        T::enc(content@).len() <= u32::MAX,
    ensures
        r@ == Payload::enc(PayloadModel { payload_type, content: T::enc(content@) }),
{
    let payload = Payload { payload_type, content: encode(content) };
    encode(&payload)
}

/// The heights a query reply covers: the asked one and the next hundred, as
/// far as heights go.
pub fn query_heights(start: u64) -> (r: (u64, u64))
    ensures
        r.0 == start,
        r.1 == if start > u64::MAX - QUERY_SPAN { u64::MAX } else { (start + QUERY_SPAN) as u64 },
{
    let end = if start > u64::MAX - QUERY_SPAN { u64::MAX } else { start + QUERY_SPAN };
    (start, end)
}

/// The notarization of a stored outcome as a query reply gives it.
pub open spec fn notarization_of_slot(s: SlotState, n: GetNotarizationState) -> bool {
    match s {
        SlotState::Block(b) => n.height == b.height && n.votes@ == b.votes@ && n.hash@ == b.spec_hash()
            && n.notarization_type == GetNotarizationNotarizationType::Block,
        SlotState::Nullification(x) => n.height == x.height && n.votes@ == x.votes@ && n.hash@
            == null_hash_of(x.height) && n.notarization_type
            == GetNotarizationNotarizationType::Nullification,
    }
}

/// The reply to a notarization query: one notarization per stored outcome, in order.
pub fn notarization_reply(slots: &Vec<SlotState>) -> (r: GetNotarizationReply)
    requires
        forall|i: int| 0 <= i < slots@.len() ==> SlotState::wf_model(#[trigger] slots@[i]@),
    ensures
        r.notarizations@.len() == slots@.len(),
        forall|i: int|
            0 <= i < slots@.len() ==> notarization_of_slot(
                #[trigger] slots@[i],
                r.notarizations@[i],
            ),
{
    let mut notarizations: Vec<GetNotarizationState> = Vec::new();
    let mut i: usize = 0;
    while i < slots.len()
        invariant
            i <= slots@.len(),
            forall|k: int| 0 <= k < slots@.len() ==> SlotState::wf_model(#[trigger] slots@[k]@),
            notarizations@.len() == i,
            forall|k: int|
                0 <= k < i ==> notarization_of_slot(#[trigger] slots@[k], notarizations@[k]),
        decreases slots@.len() - i,
    {
        assert(SlotState::wf_model(slots@[i as int]@));
        let n = match &slots[i] {
            SlotState::Block(b) => GetNotarizationState {
                height: b.height,
                votes: copy_votes(&b.votes),
                hash: b.calculate_block_hash(),
                notarization_type: GetNotarizationNotarizationType::Block,
            },
            SlotState::Nullification(x) => GetNotarizationState {
                height: x.height,
                votes: copy_votes(&x.votes),
                hash: calculate_null_hash(x.height),
                notarization_type: GetNotarizationNotarizationType::Nullification,
            },
        };
        notarizations.push(n);
        i = i + 1;
    }
    GetNotarizationReply { notarizations }
}

/// The blocks among stored outcomes, in order, without their votes.
pub open spec fn blocks_of(slots: Seq<SlotState>) -> Seq<crate::types::BlockModel>
    decreases slots.len(),
{
    if slots.len() == 0 {
        Seq::empty()
    } else {
        let rest = blocks_of(slots.drop_last());
        match slots.last() {
            SlotState::Block(b) => rest.push(
                crate::types::BlockModel {
                    height: b.height,
                    transactions: models(b.transactions@),
                    previous_block_hash: b.previous_block_hash@,
                    slot_leader_signature: b.slot_leader_signature@,
                },
            ),
            SlotState::Nullification(_) => rest,
        }
    }
}

/// The reply to a block query: the blocks among the stored outcomes.
pub fn block_reply(slots: &Vec<SlotState>) -> (r: GetBlockReply)
    ensures
        models(r.blocks@) == blocks_of(slots@),
{
    let mut blocks: Vec<Block> = Vec::new();
    let mut i: usize = 0;
    while i < slots.len()
        invariant
            i <= slots@.len(),
            models(blocks@) == blocks_of(slots@.take(i as int)),
        decreases slots@.len() - i,
    {
        assert(slots@.take(i + 1).drop_last() =~= slots@.take(i as int));
        match &slots[i] {
            SlotState::Block(b) => {
                blocks.push(
                    Block {
                        height: b.height,
                        transactions: copy_transactions(&b.transactions),
                        previous_block_hash: b.previous_block_hash,
                        slot_leader_signature: b.slot_leader_signature,
                    },
                );
                assert(models(blocks@) =~= blocks_of(slots@.take(i + 1)));
            },
            SlotState::Nullification(_) => {},
        }
        i = i + 1;
    }
    assert(slots@.take(i as int) =~= slots@);
    GetBlockReply { blocks }
}

/// The block votes one notarization carries: one per signature, if it notarizes a block.
pub open spec fn block_votes_in(n: GetNotarizationState) -> Seq<BlockVote> {
    if n.notarization_type == GetNotarizationNotarizationType::Block {
        n.votes@.map_values(
            |v: crate::types::Notarization|
                BlockVote {
                    block_hash: n.hash,
                    slot_height: n.height,
                    signature: v.signature,
                    validator_index: v.validator_index,
                },
        )
    } else {
        Seq::empty()
    }
}

/// The null votes one notarization carries: one per signature, if it notarizes a nullification.
pub open spec fn null_votes_in(n: GetNotarizationState) -> Seq<NullVote> {
    if n.notarization_type == GetNotarizationNotarizationType::Nullification {
        n.votes@.map_values(
            |v: crate::types::Notarization|
                NullVote { slot_height: n.height, signature: v.signature, validator_index: v.validator_index },
        )
    } else {
        Seq::empty()
    }
}

/// All block votes of a reply, notarization by notarization, in order.
pub open spec fn block_votes_of(ns: Seq<GetNotarizationState>) -> Seq<BlockVote>
    decreases ns.len(),
{
    if ns.len() == 0 {
        Seq::empty()
    } else {
        block_votes_of(ns.drop_last()) + block_votes_in(ns.last())
    }
}

/// All null votes of a reply, notarization by notarization, in order.
pub open spec fn null_votes_of(ns: Seq<GetNotarizationState>) -> Seq<NullVote>
    decreases ns.len(),
{
    if ns.len() == 0 {
        Seq::empty()
    } else {
        null_votes_of(ns.drop_last()) + null_votes_in(ns.last())
    }
}

/// The votes a notarization reply carries, as votes to feed to consensus: one
/// block vote per signature of a block notarization, one null vote per
/// signature of a nullification, in order.
pub fn votes_from_notarizations(reply: &GetNotarizationReply) -> (r: (Vec<BlockVote>, Vec<NullVote>))
    ensures
        r.0@ == block_votes_of(reply.notarizations@),
        r.1@ == null_votes_of(reply.notarizations@),
{
    let mut block_votes: Vec<BlockVote> = Vec::new();
    let mut null_votes: Vec<NullVote> = Vec::new();
    let ns = &reply.notarizations;
    let mut k: usize = 0;
    while k < ns.len()
        invariant
            k <= ns@.len(),
            *ns == reply.notarizations,
            block_votes@ == block_votes_of(ns@.take(k as int)),
            null_votes@ == null_votes_of(ns@.take(k as int)),
        decreases ns@.len() - k,
    {
        let n = &ns[k];
        let ghost b0 = block_votes@;
        let ghost n0 = null_votes@;
        let mut j: usize = 0;
        while j < n.votes.len()
            invariant
                j <= n.votes@.len(),
                k < ns@.len(),
                *n == ns@[k as int],
                block_votes@ == b0 + block_votes_in(*n).take(
                    if n.notarization_type == GetNotarizationNotarizationType::Block { j as int } else { 0 },
                ),
                null_votes@ == n0 + null_votes_in(*n).take(
                    if n.notarization_type == GetNotarizationNotarizationType::Nullification { j as int } else { 0 },
                ),
            decreases n.votes@.len() - j,
        {
            let v = n.votes[j];
            match n.notarization_type {
                GetNotarizationNotarizationType::Block => {
                    block_votes.push(
                        BlockVote {
                            block_hash: n.hash,
                            slot_height: n.height,
                            signature: v.signature,
                            validator_index: v.validator_index,
                        },
                    );
                    assert(block_votes_in(*n).take(j + 1) =~= block_votes_in(*n).take(j as int).push(
                        block_votes_in(*n)[j as int],
                    ));
                },
                GetNotarizationNotarizationType::Nullification => {
                    null_votes.push(
                        NullVote {
                            slot_height: n.height,
                            signature: v.signature,
                            validator_index: v.validator_index,
                        },
                    );
                    assert(null_votes_in(*n).take(j + 1) =~= null_votes_in(*n).take(j as int).push(
                        null_votes_in(*n)[j as int],
                    ));
                },
                GetNotarizationNotarizationType::NoneYet => {},
            }
            j = j + 1;
        }
        proof {
            assert(ns@.take(k + 1).drop_last() =~= ns@.take(k as int));
            assert(ns@.take(k + 1).last() == *n);
            assert(block_votes_in(*n).take(block_votes_in(*n).len() as int) =~= block_votes_in(*n));
            assert(null_votes_in(*n).take(null_votes_in(*n).len() as int) =~= null_votes_in(*n));
            assert(block_votes_in(*n).take(0) =~= Seq::<BlockVote>::empty());
            assert(null_votes_in(*n).take(0) =~= Seq::<NullVote>::empty());
            assert(block_votes@ =~= block_votes_of(ns@.take(k + 1)));
            assert(null_votes@ =~= null_votes_of(ns@.take(k + 1)));
        }
        k = k + 1;
    }
    assert(ns@.take(k as int) =~= ns@);
    (block_votes, null_votes)
}

/// What to do with a message read from a connection after the handshake.
#[derive(Clone, Copy, Debug, PartialEq, Eq, Structural)]
pub enum Disposition {
    /// A request or statement: for the node's inbound queue.
    Inbound,
    /// A response: for the request waiting on its id.
    Response,
    /// A liveness ping.
    Heartbeat,
    /// Nothing after the handshake expects it.
    Unexpected,
}

/// Where a message read after the handshake goes, by its kind.
pub fn classify_message(message_type: MessageType) -> (r: Disposition)
    ensures
        r == match message_type {
            MessageType::Request | MessageType::Statement => Disposition::Inbound,
            MessageType::Response => Disposition::Response,
            MessageType::Ping => Disposition::Heartbeat,
            MessageType::Pong => Disposition::Unexpected,
        },
{
    match message_type {
        MessageType::Request | MessageType::Statement => Disposition::Inbound,
        MessageType::Response => Disposition::Response,
        MessageType::Ping => Disposition::Heartbeat,
        MessageType::Pong => Disposition::Unexpected,
    }
}

/// A request waiting for its response.
#[derive(Clone, Copy, Debug, PartialEq, Eq, Structural)]
pub struct PendingRequest {
    pub id: u64,
    /// When it times out, in milliseconds.
    pub deadline: u64,
}

/// Whether a list of pending requests holds one with `id`.
pub open spec fn has_request(ps: Seq<PendingRequest>, id: u64) -> bool {
    exists|i: int| 0 <= i < ps.len() && ps[i].id == id
}

/// The requests of one connection that wait for a response, by id.
#[derive(Clone, Debug)]
pub struct PendingRequests {
    pub next_request_id: u64,
    pub pending: Vec<PendingRequest>,
}

impl PendingRequests {
    /// A table with nothing pending; the first id is 0.
    pub fn new() -> (r: PendingRequests)
        ensures
            r.next_request_id == 0,
            r.pending@.len() == 0,
    {
        PendingRequests { next_request_id: 0, pending: Vec::new() }
    }

    /// Registers a request sent at `now` under the next id, and returns the id.
    pub fn register(&mut self, now: u64) -> (r: u64)
        ensures
            r == old(self).next_request_id,
            final(self).next_request_id == if r == u64::MAX { 0 } else { (r + 1) as u64 },
            final(self).pending@ == old(self).pending@.push(
                PendingRequest {
                    id: r,
                    deadline: if now > u64::MAX - REQUEST_TIMEOUT_MS {
                        u64::MAX
                    } else {
                        (now + REQUEST_TIMEOUT_MS) as u64
                    },
                },
            ),
    {
        let id = self.next_request_id;
        self.next_request_id = if id == u64::MAX { 0 } else { id + 1 };
        let deadline = if now > u64::MAX - REQUEST_TIMEOUT_MS { u64::MAX } else { now + REQUEST_TIMEOUT_MS };
        self.pending.push(PendingRequest { id, deadline });
        id
    }

    /// Takes the response with `id`: true, and the request leaves the table, if
    /// one waits on it; false (the response is dropped) if none does.
    pub fn complete(&mut self, id: u64) -> (r: bool)
        ensures
            r == has_request(old(self).pending@, id),
            final(self).pending@ == without_request(old(self).pending@, id),
            final(self).next_request_id == old(self).next_request_id,
            !has_request(final(self).pending@, id),
            forall|q: u64|
                q != id ==> #[trigger] has_request(final(self).pending@, q) == has_request(
                    old(self).pending@,
                    q,
                ),
    {
        let mut kept: Vec<PendingRequest> = Vec::new();
        let mut found = false;
        let mut i: usize = 0;
        while i < self.pending.len()
            invariant
                i <= self.pending@.len(),
                self.pending == old(self).pending,
                self.next_request_id == old(self).next_request_id,
                found == has_request(self.pending@.take(i as int), id),
                kept@ == without_request(self.pending@.take(i as int), id),
            decreases self.pending@.len() - i,
        {
            let p = self.pending[i];
            proof {
                assert(self.pending@.take(i + 1) =~= self.pending@.take(i as int).push(p));
                lemma_has_request_push(self.pending@.take(i as int), p, id);
                assert(self.pending@.take(i + 1).drop_last() =~= self.pending@.take(i as int));
            }
            if p.id == id {
                found = true;
            } else {
                kept.push(p);
            }
            i = i + 1;
        }
        proof {
            assert(self.pending@.take(i as int) =~= self.pending@);
            lemma_without_request(old(self).pending@, id, id);
            assert forall|q: u64| q != id implies #[trigger] has_request(kept@, q) == has_request(
                old(self).pending@,
                q,
            ) by {
                lemma_without_request(old(self).pending@, id, q);
            }
        }
        self.pending = kept;
        found
    }

    /// Removes the requests whose deadline has passed at `now`, and returns
    /// their ids, in order.
    pub fn expire(&mut self, now: u64) -> (r: Vec<u64>)
        ensures
            final(self).next_request_id == old(self).next_request_id,
            final(self).pending@ == unexpired(old(self).pending@, now),
            r@ == expired_ids(old(self).pending@, now),
    {
        let mut kept: Vec<PendingRequest> = Vec::new();
        let mut expired: Vec<u64> = Vec::new();
        let mut i: usize = 0;
        while i < self.pending.len()
            invariant
                i <= self.pending@.len(),
                self.pending == old(self).pending,
                self.next_request_id == old(self).next_request_id,
                kept@ == unexpired(self.pending@.take(i as int), now),
                expired@ == expired_ids(self.pending@.take(i as int), now),
            decreases self.pending@.len() - i,
        {
            let p = self.pending[i];
            assert(self.pending@.take(i + 1).drop_last() =~= self.pending@.take(i as int));
            if p.deadline > now {
                kept.push(p);
            } else {
                expired.push(p.id);
            }
            i = i + 1;
        }
        assert(self.pending@.take(i as int) =~= self.pending@);
        self.pending = kept;
        expired
    }
}

/// The pending requests without the one with `id`, order kept.
pub open spec fn without_request(ps: Seq<PendingRequest>, id: u64) -> Seq<PendingRequest>
    decreases ps.len(),
{
    if ps.len() == 0 {
        ps
    } else {
        let rest = without_request(ps.drop_last(), id);
        if ps.last().id == id {
            rest
        } else {
            rest.push(ps.last())
        }
    }
}

/// The pending requests still in time at `now`, order kept.
pub open spec fn unexpired(ps: Seq<PendingRequest>, now: u64) -> Seq<PendingRequest>
    decreases ps.len(),
{
    if ps.len() == 0 {
        ps
    } else {
        let rest = unexpired(ps.drop_last(), now);
        if ps.last().deadline > now {
            rest.push(ps.last())
        } else {
            rest
        }
    }
}

/// The ids of the pending requests timed out at `now`, in order.
pub open spec fn expired_ids(ps: Seq<PendingRequest>, now: u64) -> Seq<u64>
    decreases ps.len(),
{
    if ps.len() == 0 {
        Seq::empty()
    } else {
        let rest = expired_ids(ps.drop_last(), now);
        if ps.last().deadline > now {
            rest
        } else {
            rest.push(ps.last().id)
        }
    }
}

proof fn lemma_has_request_push(ps: Seq<PendingRequest>, p: PendingRequest, q: u64)
    ensures
        has_request(ps.push(p), q) == (has_request(ps, q) || p.id == q),
{
    if has_request(ps, q) {
        let j = choose|j: int| 0 <= j < ps.len() && ps[j].id == q;
        assert(ps.push(p)[j] == ps[j]);
    }
    if p.id == q {
        assert(ps.push(p)[ps.len() as int] == p);
    }
    if has_request(ps.push(p), q) {
        let j = choose|j: int| 0 <= j < ps.len() + 1 && ps.push(p)[j].id == q;
        if j < ps.len() {
            assert(ps[j] == ps.push(p)[j]);
        }
    }
}

proof fn lemma_without_request(ps: Seq<PendingRequest>, id: u64, q: u64)
    ensures
        has_request(without_request(ps, id), q) == (has_request(ps, q) && q != id),
    decreases ps.len(),
{
    if ps.len() > 0 {
        let init = ps.drop_last();
        lemma_without_request(init, id, q);
        lemma_has_request_push(init, ps.last(), q);
        assert(init.push(ps.last()) =~= ps);
        if ps.last().id != id {
            lemma_has_request_push(without_request(init, id), ps.last(), q);
        }
    } else {
        assert(!has_request(ps, q));
    }
}

} // verus!
