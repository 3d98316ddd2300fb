use vastrum_node::codec::{decode, encode, DecodeError};
use vastrum_node::crypto::{PrivateKey, PublicKey, Sha256Digest, Signature};
use vastrum_node::messages::{
    frame_length, frame_message, Message, MessageType, Payload, PayloadType, PingContent,
};
use vastrum_node::types::{
    Block, BlockVote, Notarization, NotarizedBlock, NotarizedNullification, NullVote, SlotState,
    Transaction,
};

fn transaction(n: u8) -> Transaction {
    Transaction {
        pub_key: PrivateKey::from_seed(n as u64).public_key(),
        signature: Signature::from_bytes([n; 64]),
        calldata: vec![n, n + 1, n + 2],
        pow_nonce: 1000 + n as u64,
    }
}

fn notarized_block() -> NotarizedBlock {
    NotarizedBlock {
        height: 7,
        transactions: vec![transaction(1), transaction(2)],
        previous_block_hash: Sha256Digest::from_u64(99),
        slot_leader_signature: Signature::from_bytes([9; 64]),
        votes: vec![
            Notarization { validator_index: 0, signature: Signature::from_bytes([1; 64]) },
            Notarization { validator_index: 3, signature: Signature::from_bytes([2; 64]) },
        ],
    }
}

#[test]
fn transaction_encoding_matches_borsh_layout() {
    let t = transaction(5);
    let expected =
        borsh::to_vec(&(t.pub_key.bytes, t.signature.bytes, t.calldata.clone(), t.pow_nonce)).unwrap();
    assert_eq!(encode(&t), expected);
}

#[test]
fn notarized_block_encoding_matches_borsh_layout() {
    let b = notarized_block();
    let txs: Vec<([u8; 32], [u8; 64], Vec<u8>, u64)> = b
        .transactions
        .iter()
        .map(|t| (t.pub_key.bytes, t.signature.bytes, t.calldata.clone(), t.pow_nonce))
        .collect();
    let votes: Vec<(u64, [u8; 64])> =
        b.votes.iter().map(|v| (v.validator_index, v.signature.bytes)).collect();
    let expected = borsh::to_vec(&(
        b.height,
        txs,
        b.previous_block_hash.data,
        b.slot_leader_signature.bytes,
        votes,
    ))
    .unwrap();
    assert_eq!(encode(&b), expected);
}

#[test]
fn slot_state_round_trip() {
    let block = SlotState::Block(notarized_block());
    assert_eq!(decode::<SlotState>(&encode(&block)), Ok(block.clone()));
    let null = SlotState::Nullification(NotarizedNullification {
        height: 12,
        votes: vec![Notarization { validator_index: 4, signature: Signature::from_bytes([4; 64]) }],
    });
    let bytes = encode(&null);
    assert_eq!(bytes[0], 1);
    assert_eq!(decode::<SlotState>(&bytes), Ok(null));
}

#[test]
fn payload_type_round_trip() {
    let all = [
        PayloadType::VoteBlock,
        PayloadType::VoteNull,
        PayloadType::BlockProposal,
        PayloadType::GetNotarizationRequest,
        PayloadType::GetNotarizationReply,
        PayloadType::GetBlockRequest,
        PayloadType::GetBlockReply,
        PayloadType::GetPeersRequest,
        PayloadType::GetPeersReply,
        PayloadType::TransactionGossip,
        PayloadType::TransactionSubmitBroadcast,
    ];
    for (i, t) in all.iter().enumerate() {
        let p = Payload { payload_type: *t, content: vec![i as u8; i] };
        let bytes = encode(&p);
        assert_eq!(bytes[0], i as u8);
        assert_eq!(decode::<Payload>(&bytes), Ok(p));
    }
}

#[test]
fn message_and_votes_round_trip() {
    let m = Message { id: 42, message_type: MessageType::Statement, payload: vec![1, 2, 3] };
    assert_eq!(decode::<Message>(&encode(&m)), Ok(m));
    let v = BlockVote {
        block_hash: Sha256Digest::from_u64(3),
        slot_height: 8,
        signature: Signature::from_bytes([7; 64]),
        validator_index: 2,
    };
    assert_eq!(decode::<BlockVote>(&encode(&v)), Ok(v));
    let n = NullVote { slot_height: 8, signature: Signature::from_bytes([6; 64]), validator_index: 1 };
    assert_eq!(decode::<NullVote>(&encode(&n)), Ok(n));
    let b = Block {
        height: 3,
        transactions: vec![transaction(8)],
        previous_block_hash: Sha256Digest::from_u64(1),
        slot_leader_signature: Signature::from_bytes([3; 64]),
    };
    assert_eq!(decode::<Block>(&encode(&b)), Ok(b));
}

#[test]
fn decode_rejects_truncated_and_trailing_input() {
    let m = Message { id: 1, message_type: MessageType::Request, payload: vec![5; 10] };
    let bytes = encode(&m);
    assert_eq!(decode::<Message>(&bytes[..bytes.len() - 1]), Err(DecodeError::Malformed));
    let mut longer = bytes.clone();
    longer.push(0);
    assert_eq!(decode::<Message>(&longer), Err(DecodeError::TrailingBytes));
    let mut bad_tag = bytes;
    bad_tag[8] = 9;
    assert_eq!(decode::<Message>(&bad_tag), Err(DecodeError::Malformed));
}

#[test]
fn ping_content_layout() {
    let p = PingContent {
        from_p2p_key: PublicKey::from_bytes([1; 32]),
        unix_timestamp: 0x0102030405060708,
        to_p2p_key: PublicKey::from_bytes([2; 32]),
        listening_port: 0x1234,
    };
    let bytes = encode(&p);
    assert_eq!(bytes.len(), 32 + 8 + 32 + 2);
    assert_eq!(&bytes[32..40], &[8, 7, 6, 5, 4, 3, 2, 1]);
    assert_eq!(&bytes[72..74], &[0x34, 0x12]);
}

#[test]
fn frames_are_length_prefixed_big_endian() {
    let m = Message { id: 0, message_type: MessageType::Ping, payload: vec![0; 300] };
    let frame = frame_message(&m);
    let body = encode(&m);
    assert_eq!(&frame[4..], &body[..]);
    let n = body.len() as u32;
    assert_eq!(&frame[..4], &n.to_be_bytes());
    assert_eq!(frame_length([frame[0], frame[1], frame[2], frame[3]]), Some(n));
    assert_eq!(frame_length((50 * 1024 * 1024u32).to_be_bytes()), Some(50 * 1024 * 1024));
    assert_eq!(frame_length((50 * 1024 * 1024u32 + 1).to_be_bytes()), None);
}

#[test]
fn digest_from_u64_is_big_endian_in_last_bytes() {
    let d = Sha256Digest::from_u64(0x0102);
    let mut expected = [0u8; 32];
    expected[30] = 1;
    expected[31] = 2;
    assert_eq!(d.to_vec(), expected);
}

#[test]
fn hash_is_sha256() {
    let d = vastrum_node::crypto::hash(b"abc");
    assert_eq!(
        d.data[..4],
        [0xba, 0x78, 0x16, 0xbf]
    );
}
