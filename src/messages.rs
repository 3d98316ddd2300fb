//! The peer-to-peer messages and payloads, their place in the wire format,
//! the hashes that a handshake signs, and the length-prefixed frame that
//! carries a message.

use vstd::prelude::*;

use crate::codec::{
    enc_bytes, enc_list, enc_u16, enc_u64, enc_u8, encode, lemma_bytes_round_trip,
    lemma_fixed_round_trip, lemma_list_round_trip, lemma_parse_list_wf, lemma_skip_prefix,
    lemma_skip_skip, lemma_u16_round_trip, lemma_u64_round_trip, lemma_u8_round_trip, models,
    parse_bytes, parse_fixed, parse_list, parse_u16, parse_u64, parse_u8, read_bytes, read_list,
    read_array16, read_u16, read_u64, read_u8, write_raw, wf_list, write_bytes, write_list, write_u16, write_u64, write_u8,
    Wire,
};
use crate::crypto::{hash, sha256_of, PublicKey, Sha256Digest, Signature};
use crate::types::{Block, BlockModel, Notarization, NotarizationModel, Transaction, TransactionModel};

verus! {

/// What a connecting node signs to open a handshake.
#[derive(Clone, Debug, PartialEq)]
pub struct PingContent {
    /// The p2p key of the pinging node.
    pub from_p2p_key: PublicKey,
    pub unix_timestamp: u64,
    pub to_p2p_key: PublicKey,
    pub listening_port: u16,
}

pub struct PingContentModel {
    pub from_p2p_key: Seq<u8>,
    pub unix_timestamp: u64,
    pub to_p2p_key: Seq<u8>,
    pub listening_port: u16,
}

impl View for PingContent {
    type V = PingContentModel;

    open spec fn view(&self) -> PingContentModel {
        PingContentModel {
            from_p2p_key: self.from_p2p_key@,
            unix_timestamp: self.unix_timestamp,
            to_p2p_key: self.to_p2p_key@,
            listening_port: self.listening_port,
        }
    }
}

/// Written as its fields in order.
impl Wire for PingContent {
    open spec fn wf_model(m: PingContentModel) -> bool {
        &&& m.from_p2p_key.len() == 32
        &&& m.to_p2p_key.len() == 32
    }

    open spec fn enc(m: PingContentModel) -> Seq<u8> {
        m.from_p2p_key + enc_u64(m.unix_timestamp) + m.to_p2p_key + enc_u16(m.listening_port)
    }

    open spec fn parse(s: Seq<u8>) -> Option<(PingContentModel, int)> {
        match parse_fixed(s, 32) {
            None => None,
            Some((v_from_p2p_key, k0)) =>                 match parse_u64(s.skip(k0)) {
                    None => None,
                    Some((v_unix_timestamp, k1)) =>                         match parse_fixed(s.skip(k0).skip(k1), 32) {
                            None => None,
                            Some((v_to_p2p_key, k2)) =>                                 match parse_u16(s.skip(k0).skip(k1).skip(k2)) {
                                    None => None,
                                    Some((v_listening_port, k3)) =>                                         Some((PingContentModel { from_p2p_key: v_from_p2p_key, unix_timestamp: v_unix_timestamp, to_p2p_key: v_to_p2p_key, listening_port: v_listening_port }, k0 + k1 + k2 + k3)),
                                },
                        },
                },
        }
    }

    proof fn lemma_round_trip(m: PingContentModel, rest: Seq<u8>) {
        let t3 = enc_u16(m.listening_port) + rest;
        let t2 = m.to_p2p_key + t3;
        let t1 = enc_u64(m.unix_timestamp) + t2;
        assert(Self::enc(m) + rest =~= m.from_p2p_key + t1);
        lemma_fixed_round_trip(m.from_p2p_key, t1);
        lemma_skip_prefix(m.from_p2p_key, t1);
        lemma_u64_round_trip(m.unix_timestamp, t2);
        lemma_skip_prefix(enc_u64(m.unix_timestamp), t2);
        lemma_fixed_round_trip(m.to_p2p_key, t3);
        lemma_skip_prefix(m.to_p2p_key, t3);
        lemma_u16_round_trip(m.listening_port, rest);
        lemma_skip_prefix(enc_u16(m.listening_port), rest);
    }

    proof fn lemma_parse_wf(s: Seq<u8>) {
    }

    fn write(&self, out: &mut Vec<u8>) {
        self.from_p2p_key.write(out);
        write_u64(self.unix_timestamp, out);
        self.to_p2p_key.write(out);
        write_u16(self.listening_port, out);
        assert(final(out)@ =~= old(out)@ + Self::enc(self@));
    }

    fn read(b: &[u8], pos: usize) -> (r: Option<(PingContent, usize)>) {
        let (from_p2p_key, p1) = match PublicKey::read(b, pos) {
            None => return None,
            Some(x) => x,
        };
        proof {
            lemma_skip_skip(b@, pos as int, p1 - pos);
        }
        let (unix_timestamp, p2) = match read_u64(b, p1) {
            None => return None,
            Some(x) => x,
        };
        proof {
            lemma_skip_skip(b@, p1 as int, p2 - p1);
        }
        let (to_p2p_key, p3) = match PublicKey::read(b, p2) {
            None => return None,
            Some(x) => x,
        };
        proof {
            lemma_skip_skip(b@, p2 as int, p3 - p2);
        }
        let (listening_port, p4) = match read_u16(b, p3) {
            None => return None,
            Some(x) => x,
        };
        Some((PingContent { from_p2p_key, unix_timestamp, to_p2p_key, listening_port }, p4))
    }
}

/// A signed ping.
#[derive(Clone, Debug, PartialEq)]
pub struct PingMessage {
    pub signature: Signature,
    pub content: PingContent,
}

pub struct PingMessageModel {
    pub signature: Seq<u8>,
    pub content: PingContentModel,
}

impl View for PingMessage {
    type V = PingMessageModel;

    open spec fn view(&self) -> PingMessageModel {
        PingMessageModel {
            signature: self.signature@,
            content: self.content@,
        }
    }
}

/// Written as its fields in order.
impl Wire for PingMessage {
    open spec fn wf_model(m: PingMessageModel) -> bool {
        &&& m.signature.len() == 64
        &&& PingContent::wf_model(m.content)
    }

    open spec fn enc(m: PingMessageModel) -> Seq<u8> {
        m.signature + PingContent::enc(m.content)
    }

    open spec fn parse(s: Seq<u8>) -> Option<(PingMessageModel, int)> {
        match parse_fixed(s, 64) {
            None => None,
            Some((v_signature, k0)) =>                 match PingContent::parse(s.skip(k0)) {
                    None => None,
                    Some((v_content, k1)) =>                         Some((PingMessageModel { signature: v_signature, content: v_content }, k0 + k1)),
                },
        }
    }

    proof fn lemma_round_trip(m: PingMessageModel, rest: Seq<u8>) {
        let t1 = PingContent::enc(m.content) + rest;
        assert(Self::enc(m) + rest =~= m.signature + t1);
        lemma_fixed_round_trip(m.signature, t1);
        lemma_skip_prefix(m.signature, t1);
        PingContent::lemma_round_trip(m.content, rest);
        lemma_skip_prefix(PingContent::enc(m.content), rest);
    }

    proof fn lemma_parse_wf(s: Seq<u8>) {
        if let Some((_, k0)) = parse_fixed(s, 64) {
            PingContent::lemma_parse_wf(s.skip(k0));
        }
    }

    fn write(&self, out: &mut Vec<u8>) {
        self.signature.write(out);
        self.content.write(out);
        assert(final(out)@ =~= old(out)@ + Self::enc(self@));
    }

    fn read(b: &[u8], pos: usize) -> (r: Option<(PingMessage, usize)>) {
        let (signature, p1) = match Signature::read(b, pos) {
            None => return None,
            Some(x) => x,
        };
        proof {
            lemma_skip_skip(b@, pos as int, p1 - pos);
        }
        let (content, p2) = match PingContent::read(b, p1) {
            None => return None,
            Some(x) => x,
        };
        Some((PingMessage { signature, content }, p2))
    }
}

/// What the accepting node signs to answer a ping.
#[derive(Clone, Debug, PartialEq)]
pub struct PongContent {
    /// The p2p key of the answering node.
    pub from_p2p_key: PublicKey,
    pub unix_timestamp: u64,
    pub to_p2p_key: PublicKey,
    pub listening_port: u16,
    /// The hash of the ping content answered.
    pub ping_message_hash: Sha256Digest,
}

pub struct PongContentModel {
    pub from_p2p_key: Seq<u8>,
    pub unix_timestamp: u64,
    pub to_p2p_key: Seq<u8>,
    pub listening_port: u16,
    pub ping_message_hash: Seq<u8>,
}

impl View for PongContent {
    type V = PongContentModel;

    open spec fn view(&self) -> PongContentModel {
        PongContentModel {
            from_p2p_key: self.from_p2p_key@,
            unix_timestamp: self.unix_timestamp,
            to_p2p_key: self.to_p2p_key@,
            listening_port: self.listening_port,
            ping_message_hash: self.ping_message_hash@,
        }
    }
}

/// Written as its fields in order.
impl Wire for PongContent {
    open spec fn wf_model(m: PongContentModel) -> bool {
        &&& m.from_p2p_key.len() == 32
        &&& m.to_p2p_key.len() == 32
        &&& m.ping_message_hash.len() == 32
    }

    open spec fn enc(m: PongContentModel) -> Seq<u8> {
        m.from_p2p_key + enc_u64(m.unix_timestamp) + m.to_p2p_key + enc_u16(m.listening_port) + m.ping_message_hash
    }

    open spec fn parse(s: Seq<u8>) -> Option<(PongContentModel, int)> {
        match parse_fixed(s, 32) {
            None => None,
            Some((v_from_p2p_key, k0)) =>                 match parse_u64(s.skip(k0)) {
                    None => None,
                    Some((v_unix_timestamp, k1)) =>                         match parse_fixed(s.skip(k0).skip(k1), 32) {
                            None => None,
                            Some((v_to_p2p_key, k2)) =>                                 match parse_u16(s.skip(k0).skip(k1).skip(k2)) {
                                    None => None,
                                    Some((v_listening_port, k3)) =>                                         match parse_fixed(s.skip(k0).skip(k1).skip(k2).skip(k3), 32) {
                                            None => None,
                                            Some((v_ping_message_hash, k4)) =>                                                 Some((PongContentModel { from_p2p_key: v_from_p2p_key, unix_timestamp: v_unix_timestamp, to_p2p_key: v_to_p2p_key, listening_port: v_listening_port, ping_message_hash: v_ping_message_hash }, k0 + k1 + k2 + k3 + k4)),
                                        },
                                },
                        },
                },
        }
    }

    proof fn lemma_round_trip(m: PongContentModel, rest: Seq<u8>) {
        let t4 = m.ping_message_hash + rest;
        let t3 = enc_u16(m.listening_port) + t4;
        let t2 = m.to_p2p_key + t3;
        let t1 = enc_u64(m.unix_timestamp) + t2;
        assert(Self::enc(m) + rest =~= m.from_p2p_key + t1);
        lemma_fixed_round_trip(m.from_p2p_key, t1);
        lemma_skip_prefix(m.from_p2p_key, t1);
        lemma_u64_round_trip(m.unix_timestamp, t2);
        lemma_skip_prefix(enc_u64(m.unix_timestamp), t2);
        lemma_fixed_round_trip(m.to_p2p_key, t3);
        lemma_skip_prefix(m.to_p2p_key, t3);
        lemma_u16_round_trip(m.listening_port, t4);
        lemma_skip_prefix(enc_u16(m.listening_port), t4);
        lemma_fixed_round_trip(m.ping_message_hash, rest);
        lemma_skip_prefix(m.ping_message_hash, rest);
    }

    proof fn lemma_parse_wf(s: Seq<u8>) {
    }

    fn write(&self, out: &mut Vec<u8>) {
        self.from_p2p_key.write(out);
        write_u64(self.unix_timestamp, out);
        self.to_p2p_key.write(out);
        write_u16(self.listening_port, out);
        self.ping_message_hash.write(out);
        assert(final(out)@ =~= old(out)@ + Self::enc(self@));
    }

    fn read(b: &[u8], pos: usize) -> (r: Option<(PongContent, usize)>) {
        let (from_p2p_key, p1) = match PublicKey::read(b, pos) {
            None => return None,
            Some(x) => x,
        };
        proof {
            lemma_skip_skip(b@, pos as int, p1 - pos);
        }
        let (unix_timestamp, p2) = match read_u64(b, p1) {
            None => return None,
            Some(x) => x,
        };
        proof {
            lemma_skip_skip(b@, p1 as int, p2 - p1);
        }
        let (to_p2p_key, p3) = match PublicKey::read(b, p2) {
            None => return None,
            Some(x) => x,
        };
        proof {
            lemma_skip_skip(b@, p2 as int, p3 - p2);
        }
        let (listening_port, p4) = match read_u16(b, p3) {
            None => return None,
            Some(x) => x,
        };
        proof {
            lemma_skip_skip(b@, p3 as int, p4 - p3);
        }
        let (ping_message_hash, p5) = match Sha256Digest::read(b, p4) {
            None => return None,
            Some(x) => x,
        };
        Some((PongContent { from_p2p_key, unix_timestamp, to_p2p_key, listening_port, ping_message_hash }, p5))
    }
}

/// A signed pong.
#[derive(Clone, Debug, PartialEq)]
pub struct PongMessage {
    pub signature: Signature,
    pub content: PongContent,
}

pub struct PongMessageModel {
    pub signature: Seq<u8>,
    pub content: PongContentModel,
}

impl View for PongMessage {
    type V = PongMessageModel;

    open spec fn view(&self) -> PongMessageModel {
        PongMessageModel {
            signature: self.signature@,
            content: self.content@,
        }
    }
}

/// Written as its fields in order.
impl Wire for PongMessage {
    open spec fn wf_model(m: PongMessageModel) -> bool {
        &&& m.signature.len() == 64
        &&& PongContent::wf_model(m.content)
    }

    open spec fn enc(m: PongMessageModel) -> Seq<u8> {
        m.signature + PongContent::enc(m.content)
    }

    open spec fn parse(s: Seq<u8>) -> Option<(PongMessageModel, int)> {
        match parse_fixed(s, 64) {
            None => None,
            Some((v_signature, k0)) =>                 match PongContent::parse(s.skip(k0)) {
                    None => None,
                    Some((v_content, k1)) =>                         Some((PongMessageModel { signature: v_signature, content: v_content }, k0 + k1)),
                },
        }
    }

    proof fn lemma_round_trip(m: PongMessageModel, rest: Seq<u8>) {
        let t1 = PongContent::enc(m.content) + rest;
        assert(Self::enc(m) + rest =~= m.signature + t1);
        lemma_fixed_round_trip(m.signature, t1);
        lemma_skip_prefix(m.signature, t1);
        PongContent::lemma_round_trip(m.content, rest);
        lemma_skip_prefix(PongContent::enc(m.content), rest);
    }

    proof fn lemma_parse_wf(s: Seq<u8>) {
        if let Some((_, k0)) = parse_fixed(s, 64) {
            PongContent::lemma_parse_wf(s.skip(k0));
        }
    }

    fn write(&self, out: &mut Vec<u8>) {
        self.signature.write(out);
        self.content.write(out);
        assert(final(out)@ =~= old(out)@ + Self::enc(self@));
    }

    fn read(b: &[u8], pos: usize) -> (r: Option<(PongMessage, usize)>) {
        let (signature, p1) = match Signature::read(b, pos) {
            None => return None,
            Some(x) => x,
        };
        proof {
            lemma_skip_skip(b@, pos as int, p1 - pos);
        }
        let (content, p2) = match PongContent::read(b, p1) {
            None => return None,
            Some(x) => x,
        };
        Some((PongMessage { signature, content }, p2))
    }
}

/// The kind of a framed message.
#[derive(Clone, Copy, Debug, PartialEq, Eq, Structural)]
pub enum MessageType {
    Request,
    Response,
    Statement,
    Ping,
    Pong,
}

impl View for MessageType {
    type V = MessageType;

    open spec fn view(&self) -> MessageType {
        *self
    }
}

impl MessageType {
    /// The tag byte of each variant, in declaration order.
    pub open spec fn tag(self) -> u8 {
        match self {
            MessageType::Request => 0,
            MessageType::Response => 1,
            MessageType::Statement => 2,
            MessageType::Ping => 3,
            MessageType::Pong => 4,
        }
    }
}

/// Written as its tag byte.
impl Wire for MessageType {
    open spec fn wf_model(m: MessageType) -> bool {
        true
    }

    open spec fn enc(m: MessageType) -> Seq<u8> {
        enc_u8(m.tag())
    }

    open spec fn parse(s: Seq<u8>) -> Option<(MessageType, int)> {
        match parse_u8(s) {
            None => None,
            Some((t, k)) => 
                if t == 0 {
                    Some((MessageType::Request, k))
                } else if t == 1 {
                    Some((MessageType::Response, k))
                } else if t == 2 {
                    Some((MessageType::Statement, k))
                } else if t == 3 {
                    Some((MessageType::Ping, k))
                } else if t == 4 {
                    Some((MessageType::Pong, k))
                } else {
                    None
                },
        }
    }

    proof fn lemma_round_trip(m: MessageType, rest: Seq<u8>) {
        lemma_u8_round_trip(m.tag(), rest);
    }

    proof fn lemma_parse_wf(s: Seq<u8>) {
    }

    fn write(&self, out: &mut Vec<u8>) {
        let t: u8 = match self {
            MessageType::Request => 0,
            MessageType::Response => 1,
            MessageType::Statement => 2,
            MessageType::Ping => 3,
            MessageType::Pong => 4,
        };
        write_u8(t, out);
    }

    fn read(b: &[u8], pos: usize) -> (r: Option<(MessageType, usize)>) {
        match read_u8(b, pos) {
            None => None,
            Some((t, p)) => 
                if t == 0 {
                    Some((MessageType::Request, p))
                } else if t == 1 {
                    Some((MessageType::Response, p))
                } else if t == 2 {
                    Some((MessageType::Statement, p))
                } else if t == 3 {
                    Some((MessageType::Ping, p))
                } else if t == 4 {
                    Some((MessageType::Pong, p))
                } else {
                    None
                },
        }
    }
}

/// A framed message: its id correlates a response with its request.
#[derive(Clone, Debug, PartialEq)]
pub struct Message {
    pub id: u64,
    pub message_type: MessageType,
    pub payload: Vec<u8>,
}

pub struct MessageModel {
    pub id: u64,
    pub message_type: MessageType,
    pub payload: Seq<u8>,
}

impl View for Message {
    type V = MessageModel;

    open spec fn view(&self) -> MessageModel {
        MessageModel {
            id: self.id,
            message_type: self.message_type,
            payload: self.payload@,
        }
    }
}

/// Written as its fields in order.
impl Wire for Message {
    open spec fn wf_model(m: MessageModel) -> bool {
        m.payload.len() <= u32::MAX
    }

    open spec fn enc(m: MessageModel) -> Seq<u8> {
        enc_u64(m.id) + MessageType::enc(m.message_type) + enc_bytes(m.payload)
    }

    open spec fn parse(s: Seq<u8>) -> Option<(MessageModel, int)> {
        match parse_u64(s) {
            None => None,
            Some((v_id, k0)) =>                 match MessageType::parse(s.skip(k0)) {
                    None => None,
                    Some((v_message_type, k1)) =>                         match parse_bytes(s.skip(k0).skip(k1)) {
                            None => None,
                            Some((v_payload, k2)) =>                                 Some((MessageModel { id: v_id, message_type: v_message_type, payload: v_payload }, k0 + k1 + k2)),
                        },
                },
        }
    }

    proof fn lemma_round_trip(m: MessageModel, rest: Seq<u8>) {
        let t2 = enc_bytes(m.payload) + rest;
        let t1 = MessageType::enc(m.message_type) + t2;
        assert(Self::enc(m) + rest =~= enc_u64(m.id) + t1);
        lemma_u64_round_trip(m.id, t1);
        lemma_skip_prefix(enc_u64(m.id), t1);
        MessageType::lemma_round_trip(m.message_type, t2);
        lemma_skip_prefix(MessageType::enc(m.message_type), t2);
        lemma_bytes_round_trip(m.payload, rest);
        lemma_skip_prefix(enc_bytes(m.payload), rest);
    }

    proof fn lemma_parse_wf(s: Seq<u8>) {
    }

    fn write(&self, out: &mut Vec<u8>) {
        write_u64(self.id, out);
        self.message_type.write(out);
        write_bytes(&self.payload, out);
        assert(final(out)@ =~= old(out)@ + Self::enc(self@));
    }

    fn read(b: &[u8], pos: usize) -> (r: Option<(Message, usize)>) {
        let (id, p1) = match read_u64(b, pos) {
            None => return None,
            Some(x) => x,
        };
        proof {
            lemma_skip_skip(b@, pos as int, p1 - pos);
        }
        let (message_type, p2) = match MessageType::read(b, p1) {
            None => return None,
            Some(x) => x,
        };
        proof {
            lemma_skip_skip(b@, p1 as int, p2 - p1);
        }
        let (payload, p3) = match read_bytes(b, p2) {
            None => return None,
            Some(x) => x,
        };
        Some((Message { id, message_type, payload }, p3))
    }
}

/// The kind of a protocol payload.
#[derive(Clone, Copy, Debug, PartialEq, Eq, Structural)]
pub enum PayloadType {
    VoteBlock,
    VoteNull,
    BlockProposal,
    GetNotarizationRequest,
    GetNotarizationReply,
    GetBlockRequest,
    GetBlockReply,
    GetPeersRequest,
    GetPeersReply,
    TransactionGossip,
    TransactionSubmitBroadcast,
}

impl View for PayloadType {
    type V = PayloadType;

    open spec fn view(&self) -> PayloadType {
        *self
    }
}

impl PayloadType {
    /// The tag byte of each variant, in declaration order.
    pub open spec fn tag(self) -> u8 {
        match self {
            PayloadType::VoteBlock => 0,
            PayloadType::VoteNull => 1,
            PayloadType::BlockProposal => 2,
            PayloadType::GetNotarizationRequest => 3,
            PayloadType::GetNotarizationReply => 4,
            PayloadType::GetBlockRequest => 5,
            PayloadType::GetBlockReply => 6,
            PayloadType::GetPeersRequest => 7,
            PayloadType::GetPeersReply => 8,
            PayloadType::TransactionGossip => 9,
            PayloadType::TransactionSubmitBroadcast => 10,
        }
    }
}

/// Written as its tag byte.
impl Wire for PayloadType {
    open spec fn wf_model(m: PayloadType) -> bool {
        true
    }

    open spec fn enc(m: PayloadType) -> Seq<u8> {
        enc_u8(m.tag())
    }

    open spec fn parse(s: Seq<u8>) -> Option<(PayloadType, int)> {
        match parse_u8(s) {
            None => None,
            Some((t, k)) => 
                if t == 0 {
                    Some((PayloadType::VoteBlock, k))
                } else if t == 1 {
                    Some((PayloadType::VoteNull, k))
                } else if t == 2 {
                    Some((PayloadType::BlockProposal, k))
                } else if t == 3 {
                    Some((PayloadType::GetNotarizationRequest, k))
                } else if t == 4 {
                    Some((PayloadType::GetNotarizationReply, k))
                } else if t == 5 {
                    Some((PayloadType::GetBlockRequest, k))
                } else if t == 6 {
                    Some((PayloadType::GetBlockReply, k))
                } else if t == 7 {
                    Some((PayloadType::GetPeersRequest, k))
                } else if t == 8 {
                    Some((PayloadType::GetPeersReply, k))
                } else if t == 9 {
                    Some((PayloadType::TransactionGossip, k))
                } else if t == 10 {
                    Some((PayloadType::TransactionSubmitBroadcast, k))
                } else {
                    None
                },
        }
    }

    proof fn lemma_round_trip(m: PayloadType, rest: Seq<u8>) {
        lemma_u8_round_trip(m.tag(), rest);
    }

    proof fn lemma_parse_wf(s: Seq<u8>) {
    }

    fn write(&self, out: &mut Vec<u8>) {
        let t: u8 = match self {
            PayloadType::VoteBlock => 0,
            PayloadType::VoteNull => 1,
            PayloadType::BlockProposal => 2,
            PayloadType::GetNotarizationRequest => 3,
            PayloadType::GetNotarizationReply => 4,
            PayloadType::GetBlockRequest => 5,
            PayloadType::GetBlockReply => 6,
            PayloadType::GetPeersRequest => 7,
            PayloadType::GetPeersReply => 8,
            PayloadType::TransactionGossip => 9,
            PayloadType::TransactionSubmitBroadcast => 10,
        };
        write_u8(t, out);
    }

    fn read(b: &[u8], pos: usize) -> (r: Option<(PayloadType, usize)>) {
        match read_u8(b, pos) {
            None => None,
            Some((t, p)) => 
                if t == 0 {
                    Some((PayloadType::VoteBlock, p))
                } else if t == 1 {
                    Some((PayloadType::VoteNull, p))
                } else if t == 2 {
                    Some((PayloadType::BlockProposal, p))
                } else if t == 3 {
                    Some((PayloadType::GetNotarizationRequest, p))
                } else if t == 4 {
                    Some((PayloadType::GetNotarizationReply, p))
                } else if t == 5 {
                    Some((PayloadType::GetBlockRequest, p))
                } else if t == 6 {
                    Some((PayloadType::GetBlockReply, p))
                } else if t == 7 {
                    Some((PayloadType::GetPeersRequest, p))
                } else if t == 8 {
                    Some((PayloadType::GetPeersReply, p))
                } else if t == 9 {
                    Some((PayloadType::TransactionGossip, p))
                } else if t == 10 {
                    Some((PayloadType::TransactionSubmitBroadcast, p))
                } else {
                    None
                },
        }
    }
}

/// A protocol payload inside a request, response or statement.
#[derive(Clone, Debug, PartialEq)]
pub struct Payload {
    pub payload_type: PayloadType,
    pub content: Vec<u8>,
}

pub struct PayloadModel {
    pub payload_type: PayloadType,
    pub content: Seq<u8>,
}

impl View for Payload {
    type V = PayloadModel;

    open spec fn view(&self) -> PayloadModel {
        PayloadModel {
            payload_type: self.payload_type,
            content: self.content@,
        }
    }
}

/// Written as its fields in order.
impl Wire for Payload {
    open spec fn wf_model(m: PayloadModel) -> bool {
        m.content.len() <= u32::MAX
    }

    open spec fn enc(m: PayloadModel) -> Seq<u8> {
        PayloadType::enc(m.payload_type) + enc_bytes(m.content)
    }

    open spec fn parse(s: Seq<u8>) -> Option<(PayloadModel, int)> {
        match PayloadType::parse(s) {
            None => None,
            Some((v_payload_type, k0)) =>                 match parse_bytes(s.skip(k0)) {
                    None => None,
                    Some((v_content, k1)) =>                         Some((PayloadModel { payload_type: v_payload_type, content: v_content }, k0 + k1)),
                },
        }
    }

    proof fn lemma_round_trip(m: PayloadModel, rest: Seq<u8>) {
        let t1 = enc_bytes(m.content) + rest;
        assert(Self::enc(m) + rest =~= PayloadType::enc(m.payload_type) + t1);
        PayloadType::lemma_round_trip(m.payload_type, t1);
        lemma_skip_prefix(PayloadType::enc(m.payload_type), t1);
        lemma_bytes_round_trip(m.content, rest);
        lemma_skip_prefix(enc_bytes(m.content), rest);
    }

    proof fn lemma_parse_wf(s: Seq<u8>) {
    }

    fn write(&self, out: &mut Vec<u8>) {
        self.payload_type.write(out);
        write_bytes(&self.content, out);
        assert(final(out)@ =~= old(out)@ + Self::enc(self@));
    }

    fn read(b: &[u8], pos: usize) -> (r: Option<(Payload, usize)>) {
        let (payload_type, p1) = match PayloadType::read(b, pos) {
            None => return None,
            Some(x) => x,
        };
        proof {
            lemma_skip_skip(b@, pos as int, p1 - pos);
        }
        let (content, p2) = match read_bytes(b, p1) {
            None => return None,
            Some(x) => x,
        };
        Some((Payload { payload_type, content }, p2))
    }
}

/// Asks for the blocks from a height on.
#[derive(Clone, Copy, Debug, PartialEq)]
pub struct GetBlockRequest {
    pub slot_height: u64,
}

pub struct GetBlockRequestModel {
    pub slot_height: u64,
}

impl View for GetBlockRequest {
    type V = GetBlockRequestModel;

    open spec fn view(&self) -> GetBlockRequestModel {
        GetBlockRequestModel {
            slot_height: self.slot_height,
        }
    }
}

/// Written as its fields in order.
impl Wire for GetBlockRequest {
    open spec fn wf_model(m: GetBlockRequestModel) -> bool {
        true
    }

    open spec fn enc(m: GetBlockRequestModel) -> Seq<u8> {
        enc_u64(m.slot_height)
    }

    open spec fn parse(s: Seq<u8>) -> Option<(GetBlockRequestModel, int)> {
        match parse_u64(s) {
            None => None,
            Some((v_slot_height, k0)) =>                 Some((GetBlockRequestModel { slot_height: v_slot_height }, k0)),
        }
    }

    proof fn lemma_round_trip(m: GetBlockRequestModel, rest: Seq<u8>) {
        assert(Self::enc(m) + rest =~= enc_u64(m.slot_height) + rest);
        lemma_u64_round_trip(m.slot_height, rest);
        lemma_skip_prefix(enc_u64(m.slot_height), rest);
    }

    proof fn lemma_parse_wf(s: Seq<u8>) {
    }

    fn write(&self, out: &mut Vec<u8>) {
        write_u64(self.slot_height, out);
        assert(final(out)@ =~= old(out)@ + Self::enc(self@));
    }

    fn read(b: &[u8], pos: usize) -> (r: Option<(GetBlockRequest, usize)>) {
        let (slot_height, p1) = match read_u64(b, pos) {
            None => return None,
            Some(x) => x,
        };
        Some((GetBlockRequest { slot_height }, p1))
    }
}

/// The blocks found from the asked height on.
#[derive(Clone, Debug, PartialEq)]
pub struct GetBlockReply {
    pub blocks: Vec<Block>,
}

pub struct GetBlockReplyModel {
    pub blocks: Seq<BlockModel>,
}

impl View for GetBlockReply {
    type V = GetBlockReplyModel;

    open spec fn view(&self) -> GetBlockReplyModel {
        GetBlockReplyModel {
            blocks: models(self.blocks@),
        }
    }
}

/// Written as its fields in order.
impl Wire for GetBlockReply {
    open spec fn wf_model(m: GetBlockReplyModel) -> bool {
        wf_list::<Block>(m.blocks)
    }

    open spec fn enc(m: GetBlockReplyModel) -> Seq<u8> {
        enc_list::<Block>(m.blocks)
    }

    open spec fn parse(s: Seq<u8>) -> Option<(GetBlockReplyModel, int)> {
        match parse_list::<Block>(s) {
            None => None,
            Some((v_blocks, k0)) =>                 Some((GetBlockReplyModel { blocks: v_blocks }, k0)),
        }
    }

    proof fn lemma_round_trip(m: GetBlockReplyModel, rest: Seq<u8>) {
        assert(Self::enc(m) + rest =~= enc_list::<Block>(m.blocks) + rest);
        lemma_list_round_trip::<Block>(m.blocks, rest);
        lemma_skip_prefix(enc_list::<Block>(m.blocks), rest);
    }

    proof fn lemma_parse_wf(s: Seq<u8>) {
        lemma_parse_list_wf::<Block>(s);
    }

    fn write(&self, out: &mut Vec<u8>) {
        write_list(&self.blocks, out);
        assert(final(out)@ =~= old(out)@ + Self::enc(self@));
    }

    fn read(b: &[u8], pos: usize) -> (r: Option<(GetBlockReply, usize)>) {
        let (blocks, p1) = match read_list::<Block>(b, pos) {
            None => return None,
            Some(x) => x,
        };
        Some((GetBlockReply { blocks }, p1))
    }
}

/// Asks for the notarizations from a height on.
#[derive(Clone, Copy, Debug, PartialEq)]
pub struct GetNotarizationRequest {
    pub slot_height: u64,
}

pub struct GetNotarizationRequestModel {
    pub slot_height: u64,
}

impl View for GetNotarizationRequest {
    type V = GetNotarizationRequestModel;

    open spec fn view(&self) -> GetNotarizationRequestModel {
        GetNotarizationRequestModel {
            slot_height: self.slot_height,
        }
    }
}

/// Written as its fields in order.
impl Wire for GetNotarizationRequest {
    open spec fn wf_model(m: GetNotarizationRequestModel) -> bool {
        true
    }

    open spec fn enc(m: GetNotarizationRequestModel) -> Seq<u8> {
        enc_u64(m.slot_height)
    }

    open spec fn parse(s: Seq<u8>) -> Option<(GetNotarizationRequestModel, int)> {
        match parse_u64(s) {
            None => None,
            Some((v_slot_height, k0)) =>                 Some((GetNotarizationRequestModel { slot_height: v_slot_height }, k0)),
        }
    }

    proof fn lemma_round_trip(m: GetNotarizationRequestModel, rest: Seq<u8>) {
        assert(Self::enc(m) + rest =~= enc_u64(m.slot_height) + rest);
        lemma_u64_round_trip(m.slot_height, rest);
        lemma_skip_prefix(enc_u64(m.slot_height), rest);
    }

    proof fn lemma_parse_wf(s: Seq<u8>) {
    }

    fn write(&self, out: &mut Vec<u8>) {
        write_u64(self.slot_height, out);
        assert(final(out)@ =~= old(out)@ + Self::enc(self@));
    }

    fn read(b: &[u8], pos: usize) -> (r: Option<(GetNotarizationRequest, usize)>) {
        let (slot_height, p1) = match read_u64(b, pos) {
            None => return None,
            Some(x) => x,
        };
        Some((GetNotarizationRequest { slot_height }, p1))
    }
}

/// What a returned notarization agreed on.
#[derive(Clone, Copy, Debug, PartialEq, Eq, Structural)]
pub enum GetNotarizationNotarizationType {
    Block,
    Nullification,
    NoneYet,
}

impl View for GetNotarizationNotarizationType {
    type V = GetNotarizationNotarizationType;

    open spec fn view(&self) -> GetNotarizationNotarizationType {
        *self
    }
}

impl GetNotarizationNotarizationType {
    /// The tag byte of each variant, in declaration order.
    pub open spec fn tag(self) -> u8 {
        match self {
            GetNotarizationNotarizationType::Block => 0,
            GetNotarizationNotarizationType::Nullification => 1,
            GetNotarizationNotarizationType::NoneYet => 2,
        }
    }
}

/// Written as its tag byte.
impl Wire for GetNotarizationNotarizationType {
    open spec fn wf_model(m: GetNotarizationNotarizationType) -> bool {
        true
    }

    open spec fn enc(m: GetNotarizationNotarizationType) -> Seq<u8> {
        enc_u8(m.tag())
    }

    open spec fn parse(s: Seq<u8>) -> Option<(GetNotarizationNotarizationType, int)> {
        match parse_u8(s) {
            None => None,
            Some((t, k)) => 
                if t == 0 {
                    Some((GetNotarizationNotarizationType::Block, k))
                } else if t == 1 {
                    Some((GetNotarizationNotarizationType::Nullification, k))
                } else if t == 2 {
                    Some((GetNotarizationNotarizationType::NoneYet, k))
                } else {
                    None
                },
        }
    }

    proof fn lemma_round_trip(m: GetNotarizationNotarizationType, rest: Seq<u8>) {
        lemma_u8_round_trip(m.tag(), rest);
    }

    proof fn lemma_parse_wf(s: Seq<u8>) {
    }

    fn write(&self, out: &mut Vec<u8>) {
        let t: u8 = match self {
            GetNotarizationNotarizationType::Block => 0,
            GetNotarizationNotarizationType::Nullification => 1,
            GetNotarizationNotarizationType::NoneYet => 2,
        };
        write_u8(t, out);
    }

    fn read(b: &[u8], pos: usize) -> (r: Option<(GetNotarizationNotarizationType, usize)>) {
        match read_u8(b, pos) {
            None => None,
            Some((t, p)) => 
                if t == 0 {
                    Some((GetNotarizationNotarizationType::Block, p))
                } else if t == 1 {
                    Some((GetNotarizationNotarizationType::Nullification, p))
                } else if t == 2 {
                    Some((GetNotarizationNotarizationType::NoneYet, p))
                } else {
                    None
                },
        }
    }
}

/// The votes that agreed on the outcome at one height.
#[derive(Clone, Debug, PartialEq)]
pub struct GetNotarizationState {
    pub height: u64,
    pub votes: Vec<Notarization>,
    /// The block hash, or the null hash of the height.
    pub hash: Sha256Digest,
    pub notarization_type: GetNotarizationNotarizationType,
}

pub struct GetNotarizationStateModel {
    pub height: u64,
    pub votes: Seq<NotarizationModel>,
    pub hash: Seq<u8>,
    pub notarization_type: GetNotarizationNotarizationType,
}

impl View for GetNotarizationState {
    type V = GetNotarizationStateModel;

    open spec fn view(&self) -> GetNotarizationStateModel {
        GetNotarizationStateModel {
            height: self.height,
            votes: models(self.votes@),
            hash: self.hash@,
            notarization_type: self.notarization_type,
        }
    }
}

/// Written as its fields in order.
impl Wire for GetNotarizationState {
    open spec fn wf_model(m: GetNotarizationStateModel) -> bool {
        &&& wf_list::<Notarization>(m.votes)
        &&& m.hash.len() == 32
    }

    open spec fn enc(m: GetNotarizationStateModel) -> Seq<u8> {
        enc_u64(m.height) + enc_list::<Notarization>(m.votes) + m.hash + GetNotarizationNotarizationType::enc(m.notarization_type)
    }

    open spec fn parse(s: Seq<u8>) -> Option<(GetNotarizationStateModel, int)> {
        match parse_u64(s) {
            None => None,
            Some((v_height, k0)) =>                 match parse_list::<Notarization>(s.skip(k0)) {
                    None => None,
                    Some((v_votes, k1)) =>                         match parse_fixed(s.skip(k0).skip(k1), 32) {
                            None => None,
                            Some((v_hash, k2)) =>                                 match GetNotarizationNotarizationType::parse(s.skip(k0).skip(k1).skip(k2)) {
                                    None => None,
                                    Some((v_notarization_type, k3)) =>                                         Some((GetNotarizationStateModel { height: v_height, votes: v_votes, hash: v_hash, notarization_type: v_notarization_type }, k0 + k1 + k2 + k3)),
                                },
                        },
                },
        }
    }

    proof fn lemma_round_trip(m: GetNotarizationStateModel, rest: Seq<u8>) {
        let t3 = GetNotarizationNotarizationType::enc(m.notarization_type) + rest;
        let t2 = m.hash + t3;
        let t1 = enc_list::<Notarization>(m.votes) + t2;
        assert(Self::enc(m) + rest =~= enc_u64(m.height) + t1);
        lemma_u64_round_trip(m.height, t1);
        lemma_skip_prefix(enc_u64(m.height), t1);
        lemma_list_round_trip::<Notarization>(m.votes, t2);
        lemma_skip_prefix(enc_list::<Notarization>(m.votes), t2);
        lemma_fixed_round_trip(m.hash, t3);
        lemma_skip_prefix(m.hash, t3);
        GetNotarizationNotarizationType::lemma_round_trip(m.notarization_type, rest);
        lemma_skip_prefix(GetNotarizationNotarizationType::enc(m.notarization_type), rest);
    }

    proof fn lemma_parse_wf(s: Seq<u8>) {
        if let Some((_, k0)) = parse_u64(s) {
            lemma_parse_list_wf::<Notarization>(s.skip(k0));
        }
    }

    fn write(&self, out: &mut Vec<u8>) {
        write_u64(self.height, out);
        write_list(&self.votes, out);
        self.hash.write(out);
        self.notarization_type.write(out);
        assert(final(out)@ =~= old(out)@ + Self::enc(self@));
    }

    fn read(b: &[u8], pos: usize) -> (r: Option<(GetNotarizationState, usize)>) {
        let (height, p1) = match read_u64(b, pos) {
            None => return None,
            Some(x) => x,
        };
        proof {
            lemma_skip_skip(b@, pos as int, p1 - pos);
        }
        let (votes, p2) = match read_list::<Notarization>(b, p1) {
            None => return None,
            Some(x) => x,
        };
        proof {
            lemma_skip_skip(b@, p1 as int, p2 - p1);
        }
        let (hash, p3) = match Sha256Digest::read(b, p2) {
            None => return None,
            Some(x) => x,
        };
        proof {
            lemma_skip_skip(b@, p2 as int, p3 - p2);
        }
        let (notarization_type, p4) = match GetNotarizationNotarizationType::read(b, p3) {
            None => return None,
            Some(x) => x,
        };
        Some((GetNotarizationState { height, votes, hash, notarization_type }, p4))
    }
}

/// The notarizations found from the asked height on.
#[derive(Clone, Debug, PartialEq)]
pub struct GetNotarizationReply {
    pub notarizations: Vec<GetNotarizationState>,
}

pub struct GetNotarizationReplyModel {
    pub notarizations: Seq<GetNotarizationStateModel>,
}

impl View for GetNotarizationReply {
    type V = GetNotarizationReplyModel;

    open spec fn view(&self) -> GetNotarizationReplyModel {
        GetNotarizationReplyModel {
            notarizations: models(self.notarizations@),
        }
    }
}

/// Written as its fields in order.
impl Wire for GetNotarizationReply {
    open spec fn wf_model(m: GetNotarizationReplyModel) -> bool {
        wf_list::<GetNotarizationState>(m.notarizations)
    }

    open spec fn enc(m: GetNotarizationReplyModel) -> Seq<u8> {
        enc_list::<GetNotarizationState>(m.notarizations)
    }

    open spec fn parse(s: Seq<u8>) -> Option<(GetNotarizationReplyModel, int)> {
        match parse_list::<GetNotarizationState>(s) {
            None => None,
            Some((v_notarizations, k0)) =>                 Some((GetNotarizationReplyModel { notarizations: v_notarizations }, k0)),
        }
    }

    proof fn lemma_round_trip(m: GetNotarizationReplyModel, rest: Seq<u8>) {
        assert(Self::enc(m) + rest =~= enc_list::<GetNotarizationState>(m.notarizations) + rest);
        lemma_list_round_trip::<GetNotarizationState>(m.notarizations, rest);
        lemma_skip_prefix(enc_list::<GetNotarizationState>(m.notarizations), rest);
    }

    proof fn lemma_parse_wf(s: Seq<u8>) {
        lemma_parse_list_wf::<GetNotarizationState>(s);
    }

    fn write(&self, out: &mut Vec<u8>) {
        write_list(&self.notarizations, out);
        assert(final(out)@ =~= old(out)@ + Self::enc(self@));
    }

    fn read(b: &[u8], pos: usize) -> (r: Option<(GetNotarizationReply, usize)>) {
        let (notarizations, p1) = match read_list::<GetNotarizationState>(b, pos) {
            None => return None,
            Some(x) => x,
        };
        Some((GetNotarizationReply { notarizations }, p1))
    }
}

/// A transaction passed between peers.
#[derive(Clone, Debug, PartialEq)]
pub struct TransactionGossip {
    pub transaction: Transaction,
}

pub struct TransactionGossipModel {
    pub transaction: TransactionModel,
}

impl View for TransactionGossip {
    type V = TransactionGossipModel;

    open spec fn view(&self) -> TransactionGossipModel {
        TransactionGossipModel {
            transaction: self.transaction@,
        }
    }
}

/// Written as its fields in order.
impl Wire for TransactionGossip {
    open spec fn wf_model(m: TransactionGossipModel) -> bool {
        Transaction::wf_model(m.transaction)
    }

    open spec fn enc(m: TransactionGossipModel) -> Seq<u8> {
        Transaction::enc(m.transaction)
    }

    open spec fn parse(s: Seq<u8>) -> Option<(TransactionGossipModel, int)> {
        match Transaction::parse(s) {
            None => None,
            Some((v_transaction, k0)) =>                 Some((TransactionGossipModel { transaction: v_transaction }, k0)),
        }
    }

    proof fn lemma_round_trip(m: TransactionGossipModel, rest: Seq<u8>) {
        assert(Self::enc(m) + rest =~= Transaction::enc(m.transaction) + rest);
        Transaction::lemma_round_trip(m.transaction, rest);
        lemma_skip_prefix(Transaction::enc(m.transaction), rest);
    }

    proof fn lemma_parse_wf(s: Seq<u8>) {
        Transaction::lemma_parse_wf(s);
    }

    fn write(&self, out: &mut Vec<u8>) {
        self.transaction.write(out);
        assert(final(out)@ =~= old(out)@ + Self::enc(self@));
    }

    fn read(b: &[u8], pos: usize) -> (r: Option<(TransactionGossip, usize)>) {
        let (transaction, p1) = match Transaction::read(b, pos) {
            None => return None,
            Some(x) => x,
        };
        Some((TransactionGossip { transaction }, p1))
    }
}

/// Where a peer listens: an IPv6 address (IPv4 mapped) and a port.
#[derive(Clone, Copy, Debug, PartialEq)]
pub struct Endpoint {
    pub ip: [u8; 16],
    pub port: u16,
}

pub struct EndpointModel {
    pub ip: Seq<u8>,
    pub port: u16,
}

impl View for Endpoint {
    type V = EndpointModel;

    open spec fn view(&self) -> EndpointModel {
        EndpointModel {
            ip: self.ip@,
            port: self.port,
        }
    }
}

/// Written as its fields in order.
impl Wire for Endpoint {
    open spec fn wf_model(m: EndpointModel) -> bool {
        m.ip.len() == 16
    }

    open spec fn enc(m: EndpointModel) -> Seq<u8> {
        m.ip + enc_u16(m.port)
    }

    open spec fn parse(s: Seq<u8>) -> Option<(EndpointModel, int)> {
        match parse_fixed(s, 16) {
            None => None,
            Some((v_ip, k0)) =>                 match parse_u16(s.skip(k0)) {
                    None => None,
                    Some((v_port, k1)) =>                         Some((EndpointModel { ip: v_ip, port: v_port }, k0 + k1)),
                },
        }
    }

    proof fn lemma_round_trip(m: EndpointModel, rest: Seq<u8>) {
        let t1 = enc_u16(m.port) + rest;
        assert(Self::enc(m) + rest =~= m.ip + t1);
        lemma_fixed_round_trip(m.ip, t1);
        lemma_skip_prefix(m.ip, t1);
        lemma_u16_round_trip(m.port, rest);
        lemma_skip_prefix(enc_u16(m.port), rest);
    }

    proof fn lemma_parse_wf(s: Seq<u8>) {
    }

    fn write(&self, out: &mut Vec<u8>) {
        write_raw(self.ip.as_slice(), out);
        write_u16(self.port, out);
        assert(final(out)@ =~= old(out)@ + Self::enc(self@));
    }

    fn read(b: &[u8], pos: usize) -> (r: Option<(Endpoint, usize)>) {
        let (ip, p1) = match read_array16(b, pos) {
            None => return None,
            Some(x) => x,
        };
        proof {
            lemma_skip_skip(b@, pos as int, p1 - pos);
        }
        let (port, p2) = match read_u16(b, p1) {
            None => return None,
            Some(x) => x,
        };
        Some((Endpoint { ip, port }, p2))
    }
}

/// A peer as another node reports it.
#[derive(Clone, Copy, Debug, PartialEq)]
pub struct GetPeersEntry {
    pub p2p_key: PublicKey,
    pub endpoint: Endpoint,
}

pub struct GetPeersEntryModel {
    pub p2p_key: Seq<u8>,
    pub endpoint: EndpointModel,
}

impl View for GetPeersEntry {
    type V = GetPeersEntryModel;

    open spec fn view(&self) -> GetPeersEntryModel {
        GetPeersEntryModel {
            p2p_key: self.p2p_key@,
            endpoint: self.endpoint@,
        }
    }
}

/// Written as its fields in order.
impl Wire for GetPeersEntry {
    open spec fn wf_model(m: GetPeersEntryModel) -> bool {
        &&& m.p2p_key.len() == 32
        &&& Endpoint::wf_model(m.endpoint)
    }

    open spec fn enc(m: GetPeersEntryModel) -> Seq<u8> {
        m.p2p_key + Endpoint::enc(m.endpoint)
    }

    open spec fn parse(s: Seq<u8>) -> Option<(GetPeersEntryModel, int)> {
        match parse_fixed(s, 32) {
            None => None,
            Some((v_p2p_key, k0)) =>                 match Endpoint::parse(s.skip(k0)) {
                    None => None,
                    Some((v_endpoint, k1)) =>                         Some((GetPeersEntryModel { p2p_key: v_p2p_key, endpoint: v_endpoint }, k0 + k1)),
                },
        }
    }

    proof fn lemma_round_trip(m: GetPeersEntryModel, rest: Seq<u8>) {
        let t1 = Endpoint::enc(m.endpoint) + rest;
        assert(Self::enc(m) + rest =~= m.p2p_key + t1);
        lemma_fixed_round_trip(m.p2p_key, t1);
        lemma_skip_prefix(m.p2p_key, t1);
        Endpoint::lemma_round_trip(m.endpoint, rest);
        lemma_skip_prefix(Endpoint::enc(m.endpoint), rest);
    }

    proof fn lemma_parse_wf(s: Seq<u8>) {
        if let Some((_, k0)) = parse_fixed(s, 32) {
            Endpoint::lemma_parse_wf(s.skip(k0));
        }
    }

    fn write(&self, out: &mut Vec<u8>) {
        self.p2p_key.write(out);
        self.endpoint.write(out);
        assert(final(out)@ =~= old(out)@ + Self::enc(self@));
    }

    fn read(b: &[u8], pos: usize) -> (r: Option<(GetPeersEntry, usize)>) {
        let (p2p_key, p1) = match PublicKey::read(b, pos) {
            None => return None,
            Some(x) => x,
        };
        proof {
            lemma_skip_skip(b@, pos as int, p1 - pos);
        }
        let (endpoint, p2) = match Endpoint::read(b, p1) {
            None => return None,
            Some(x) => x,
        };
        Some((GetPeersEntry { p2p_key, endpoint }, p2))
    }
}

/// The peers a node is connected to.
#[derive(Clone, Debug, PartialEq)]
pub struct GetPeersReply {
    pub peers: Vec<GetPeersEntry>,
}

pub struct GetPeersReplyModel {
    pub peers: Seq<GetPeersEntryModel>,
}

impl View for GetPeersReply {
    type V = GetPeersReplyModel;

    open spec fn view(&self) -> GetPeersReplyModel {
        GetPeersReplyModel {
            peers: models(self.peers@),
        }
    }
}

/// Written as its fields in order.
impl Wire for GetPeersReply {
    open spec fn wf_model(m: GetPeersReplyModel) -> bool {
        wf_list::<GetPeersEntry>(m.peers)
    }

    open spec fn enc(m: GetPeersReplyModel) -> Seq<u8> {
        enc_list::<GetPeersEntry>(m.peers)
    }

    open spec fn parse(s: Seq<u8>) -> Option<(GetPeersReplyModel, int)> {
        match parse_list::<GetPeersEntry>(s) {
            None => None,
            Some((v_peers, k0)) =>                 Some((GetPeersReplyModel { peers: v_peers }, k0)),
        }
    }

    proof fn lemma_round_trip(m: GetPeersReplyModel, rest: Seq<u8>) {
        assert(Self::enc(m) + rest =~= enc_list::<GetPeersEntry>(m.peers) + rest);
        lemma_list_round_trip::<GetPeersEntry>(m.peers, rest);
        lemma_skip_prefix(enc_list::<GetPeersEntry>(m.peers), rest);
    }

    proof fn lemma_parse_wf(s: Seq<u8>) {
        lemma_parse_list_wf::<GetPeersEntry>(s);
    }

    fn write(&self, out: &mut Vec<u8>) {
        write_list(&self.peers, out);
        assert(final(out)@ =~= old(out)@ + Self::enc(self@));
    }

    fn read(b: &[u8], pos: usize) -> (r: Option<(GetPeersReply, usize)>) {
        let (peers, p1) = match read_list::<GetPeersEntry>(b, pos) {
            None => return None,
            Some(x) => x,
        };
        Some((GetPeersReply { peers }, p1))
    }
}

impl PingContent {
    /// The hash that the ping's signature covers: that of its encoding.
    pub fn calculate_hash(&self) -> (r: Sha256Digest)
        ensures
            r@ == sha256_of(PingContent::enc(self@)),
    {
        let bytes = encode(self);
        hash(bytes.as_slice())
    }
}

impl PongContent {
    /// The hash that the pong's signature covers: that of its encoding.
    pub fn calculate_hash(&self) -> (r: Sha256Digest)
        ensures
            r@ == sha256_of(PongContent::enc(self@)),
    {
        let bytes = encode(self);
        hash(bytes.as_slice())
    }
}

/// The largest frame body accepted: 50 MiB.
pub const MAX_FRAME_LEN: u32 = 52428800;

/// The four big-endian bytes of `n`.
pub open spec fn be_bytes_u32(n: u32) -> Seq<u8> {
    seq![(n / 16777216) as u8, ((n / 65536) % 256) as u8, ((n / 256) % 256) as u8, (n % 256) as u8]
}

/// The number that four bytes hold in big-endian order.
pub open spec fn be_value(b: Seq<u8>) -> int {
    b[0] * 16777216 + b[1] * 65536 + b[2] * 256 + b[3]
}

/// The frame of a message: its encoding's length in four big-endian bytes, then the encoding.
pub fn frame_message(message: &Message) -> (r: Vec<u8>)
    requires
        Message::wf_model(message@),
        Message::enc(message@).len() <= MAX_FRAME_LEN,
    ensures
        r@ == be_bytes_u32(Message::enc(message@).len() as u32) + Message::enc(message@),
{
    let body = encode(message);
    let n = body.len() as u32;
    let mut r: Vec<u8> = Vec::new();
    r.push((n / 16777216) as u8);
    r.push(((n / 65536) % 256) as u8);
    r.push(((n / 256) % 256) as u8);
    r.push((n % 256) as u8);
    let ghost head = r@;
    write_raw(body.as_slice(), &mut r);
    assert(head =~= be_bytes_u32(n));
    r
}

/// The body length that a frame header announces, if it is within the limit.
pub fn frame_length(header: [u8; 4]) -> (r: Option<u32>)
    ensures
        be_value(header@) <= MAX_FRAME_LEN ==> r == Some(be_value(header@) as u32),
        be_value(header@) > MAX_FRAME_LEN ==> r is None,
{
    let n: u64 = header[0] as u64 * 16777216 + header[1] as u64 * 65536 + header[2] as u64 * 256
        + header[3] as u64;
    if n > MAX_FRAME_LEN as u64 {
        None
    } else {
        Some(n as u32)
    }
}

/// Reading the header of a frame gives back the length of the body it was made with.
pub proof fn lemma_frame_header_round_trip(n: u32)
    requires
        n <= MAX_FRAME_LEN,
    ensures
        be_value(be_bytes_u32(n)) == n,
{
    let b = be_bytes_u32(n);
    assert(n / 16777216 < 256);
    assert(b[0] == n / 16777216);
    assert(b[1] == (n / 65536) % 256);
    assert(b[2] == (n / 256) % 256);
    assert(b[3] == n % 256);
    assert((n / 16777216) * 16777216 + ((n / 65536) % 256) * 65536 + ((n / 256) % 256) * 256 + n % 256 == n) by (nonlinear_arith);
}

} // verus!
