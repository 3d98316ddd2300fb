use vastrum_node::codec::{decode, encode};
use vastrum_node::crypto::{PrivateKey, Sha256Digest, Signature};
use vastrum_node::messages::{
    GetBlockReply, GetBlockRequest, GetNotarizationNotarizationType, GetNotarizationReply,
    GetNotarizationRequest, GetNotarizationState, MessageType, Payload, PayloadType,
};
use vastrum_node::networking::{
    classify_message, make_payload, notarization_reply, block_reply, query_heights, route_payload,
    votes_from_notarizations, Disposition, Inbound, PendingRequests,
};
use vastrum_node::types::{
    calculate_null_hash, BlockVote, Notarization, NotarizedBlock, NotarizedNullification, NullVote,
    SlotState, Transaction,
};

#[test]
fn votes_and_queries_are_routed() {
    let v = BlockVote {
        block_hash: Sha256Digest::from_u64(1),
        slot_height: 4,
        signature: Signature::from_bytes([1; 64]),
        validator_index: 2,
    };
    assert_eq!(route_payload(&make_payload(PayloadType::VoteBlock, &v)), Inbound::BlockVote(v));
    let n = NullVote { slot_height: 4, signature: Signature::from_bytes([2; 64]), validator_index: 1 };
    assert_eq!(route_payload(&make_payload(PayloadType::VoteNull, &n)), Inbound::NullVote(n));
    let q = GetNotarizationRequest { slot_height: 9 };
    assert_eq!(
        route_payload(&make_payload(PayloadType::GetNotarizationRequest, &q)),
        Inbound::GetNotarization(q)
    );
    let b = GetBlockRequest { slot_height: 3 };
    assert_eq!(route_payload(&make_payload(PayloadType::GetBlockRequest, &b)), Inbound::GetBlocks(b));
    let peers = encode(&Payload { payload_type: PayloadType::GetPeersRequest, content: vec![] });
    assert_eq!(route_payload(&peers), Inbound::GetPeers);
}

#[test]
fn transactions_are_routed_for_gossip_or_rebroadcast() {
    let key = PrivateKey::from_seed(3);
    let t = Transaction { pub_key: key.public_key(), signature: key.sign(&[1]), calldata: vec![1], pow_nonce: 0 };
    assert_eq!(
        route_payload(&make_payload(PayloadType::TransactionGossip, &t)),
        Inbound::Transaction(t.clone())
    );
    assert_eq!(
        route_payload(&make_payload(PayloadType::TransactionSubmitBroadcast, &t)),
        Inbound::TransactionRebroadcast(t)
    );
}

#[test]
fn malformed_and_unsolicited_payloads_are_ignored() {
    assert_eq!(route_payload(&[0xff, 0, 0]), Inbound::Ignored);
    let bad_vote = encode(&Payload { payload_type: PayloadType::VoteBlock, content: vec![1, 2] });
    assert_eq!(route_payload(&bad_vote), Inbound::Ignored);
    let reply = encode(&Payload { payload_type: PayloadType::GetBlockReply, content: vec![0, 0, 0, 0] });
    assert_eq!(route_payload(&reply), Inbound::Ignored);
}

fn stored_slots() -> Vec<SlotState> {
    let votes = vec![Notarization { validator_index: 1, signature: Signature::from_bytes([5; 64]) }];
    vec![
        SlotState::Block(NotarizedBlock {
            height: 1,
            transactions: vec![],
            previous_block_hash: Sha256Digest::from_u64(0),
            slot_leader_signature: Signature::from_bytes([6; 64]),
            votes: votes.clone(),
        }),
        SlotState::Nullification(NotarizedNullification { height: 2, votes }),
    ]
}

#[test]
fn notarization_reply_covers_blocks_and_nullifications() {
    let slots = stored_slots();
    let reply = notarization_reply(&slots);
    assert_eq!(reply.notarizations.len(), 2);
    let SlotState::Block(b) = &slots[0] else { panic!() };
    assert_eq!(reply.notarizations[0].hash, b.calculate_block_hash());
    assert_eq!(reply.notarizations[0].notarization_type, GetNotarizationNotarizationType::Block);
    assert_eq!(reply.notarizations[1].hash, calculate_null_hash(2));
    assert_eq!(
        reply.notarizations[1].notarization_type,
        GetNotarizationNotarizationType::Nullification
    );
    let (block_votes, null_votes) = votes_from_notarizations(&reply);
    assert_eq!(block_votes.len(), 1);
    assert_eq!(block_votes[0].block_hash, b.calculate_block_hash());
    assert_eq!(null_votes, vec![NullVote { slot_height: 2, signature: Signature::from_bytes([5; 64]), validator_index: 1 }]);
    let bytes = encode(&reply);
    assert_eq!(decode::<GetNotarizationReply>(&bytes), Ok(reply));
}

#[test]
fn block_reply_keeps_only_blocks() {
    let reply = block_reply(&stored_slots());
    assert_eq!(reply.blocks.len(), 1);
    assert_eq!(reply.blocks[0].height, 1);
    assert_eq!(decode::<GetBlockReply>(&encode(&reply)), Ok(reply));
    assert_eq!(query_heights(5), (5, 105));
    assert_eq!(query_heights(u64::MAX - 3), (u64::MAX - 3, u64::MAX));
}

#[test]
fn none_yet_notarizations_carry_no_votes() {
    let reply = GetNotarizationReply {
        notarizations: vec![GetNotarizationState {
            height: 3,
            votes: vec![Notarization { validator_index: 0, signature: Signature::from_bytes([1; 64]) }],
            hash: Sha256Digest::from_u64(3),
            notarization_type: GetNotarizationNotarizationType::NoneYet,
        }],
    };
    let (b, n) = votes_from_notarizations(&reply);
    assert!(b.is_empty() && n.is_empty());
}

#[test]
fn responses_pair_with_pending_requests() {
    let mut pending = PendingRequests::new();
    let a = pending.register(1_000);
    let b = pending.register(2_000);
    assert_eq!((a, b), (0, 1));
    assert!(pending.complete(a));
    assert!(!pending.complete(a));
    assert!(!pending.complete(77));
    assert_eq!(pending.expire(11_999), Vec::<u64>::new());
    assert_eq!(pending.expire(12_000), vec![b]);
    assert!(pending.pending.is_empty());
}

#[test]
fn message_kinds_are_dispatched() {
    assert_eq!(classify_message(MessageType::Request), Disposition::Inbound);
    assert_eq!(classify_message(MessageType::Statement), Disposition::Inbound);
    assert_eq!(classify_message(MessageType::Response), Disposition::Response);
    assert_eq!(classify_message(MessageType::Ping), Disposition::Heartbeat);
    assert_eq!(classify_message(MessageType::Pong), Disposition::Unexpected);
}
