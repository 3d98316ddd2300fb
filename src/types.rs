//! Transactions, blocks, notarizations and slot outcomes, their models, and
//! their place in the wire format.

use vstd::prelude::*;

use crate::codec::{
    enc_bytes, enc_list, enc_u64, enc_u8, lemma_bytes_round_trip, lemma_fixed_round_trip, lemma_skip_prefix,
    lemma_list_round_trip, lemma_parse_list_wf, lemma_skip_skip, lemma_u64_round_trip,
    lemma_u8_round_trip, models, parse_bytes, parse_fixed, parse_list, parse_u64, parse_u8,
    read_bytes, read_list, encode, write_raw, read_u64, read_u8, wf_list, write_bytes, write_list, write_u64,
    write_u8, Wire,
};
use crate::crypto::{hash, sha256_of, PublicKey, Sha256Digest, Signature};

verus! {

/// A signed call submitted by a client; its identity is the hash of its encoding.
#[derive(Clone, Debug, PartialEq)]
pub struct Transaction {
    pub pub_key: PublicKey,
    /// Signature of the calldata hash under `pub_key`.
    pub signature: Signature,
    pub calldata: Vec<u8>,
    /// Nonce hashed with the key for the proof-of-work gate.
    pub pow_nonce: u64,
}

pub struct TransactionModel {
    pub pub_key: Seq<u8>,
    pub signature: Seq<u8>,
    pub calldata: Seq<u8>,
    pub pow_nonce: u64,
}

impl View for Transaction {
    type V = TransactionModel;

    open spec fn view(&self) -> TransactionModel {
        TransactionModel {
            pub_key: self.pub_key@,
            signature: self.signature@,
            calldata: self.calldata@,
            pow_nonce: self.pow_nonce,
        }
    }
}

/// Written as its fields in order.
impl Wire for Transaction {
    open spec fn wf_model(m: TransactionModel) -> bool {
        &&& m.pub_key.len() == 32
        &&& m.signature.len() == 64
        &&& m.calldata.len() <= u32::MAX
    }

    open spec fn enc(m: TransactionModel) -> Seq<u8> {
        m.pub_key + m.signature + enc_bytes(m.calldata) + enc_u64(m.pow_nonce)
    }

    open spec fn parse(s: Seq<u8>) -> Option<(TransactionModel, int)> {
        match parse_fixed(s, 32) {
            None => None,
            Some((v_pub_key, k0)) =>                 match parse_fixed(s.skip(k0), 64) {
                    None => None,
                    Some((v_signature, k1)) =>                         match parse_bytes(s.skip(k0).skip(k1)) {
                            None => None,
                            Some((v_calldata, k2)) =>                                 match parse_u64(s.skip(k0).skip(k1).skip(k2)) {
                                    None => None,
                                    Some((v_pow_nonce, k3)) =>                                         Some((TransactionModel { pub_key: v_pub_key, signature: v_signature, calldata: v_calldata, pow_nonce: v_pow_nonce }, k0 + k1 + k2 + k3)),
                                },
                        },
                },
        }
    }

    proof fn lemma_round_trip(m: TransactionModel, rest: Seq<u8>) {
        let t3 = enc_u64(m.pow_nonce) + rest;
        let t2 = enc_bytes(m.calldata) + t3;
        let t1 = m.signature + t2;
        assert(Self::enc(m) + rest =~= m.pub_key + t1);
        lemma_fixed_round_trip(m.pub_key, t1);
        lemma_skip_prefix(m.pub_key, t1);
        lemma_fixed_round_trip(m.signature, t2);
        lemma_skip_prefix(m.signature, t2);
        lemma_bytes_round_trip(m.calldata, t3);
        lemma_skip_prefix(enc_bytes(m.calldata), t3);
        lemma_u64_round_trip(m.pow_nonce, rest);
        lemma_skip_prefix(enc_u64(m.pow_nonce), rest);
    }

    proof fn lemma_parse_wf(s: Seq<u8>) {
    }

    fn write(&self, out: &mut Vec<u8>) {
        self.pub_key.write(out);
        self.signature.write(out);
        write_bytes(&self.calldata, out);
        write_u64(self.pow_nonce, out);
        assert(final(out)@ =~= old(out)@ + Self::enc(self@));
    }

    fn read(b: &[u8], pos: usize) -> (r: Option<(Transaction, usize)>) {
        let (pub_key, p1) = match PublicKey::read(b, pos) {
            None => return None,
            Some(x) => x,
        };
        proof {
            lemma_skip_skip(b@, pos as int, p1 - pos);
        }
        let (signature, p2) = match Signature::read(b, p1) {
            None => return None,
            Some(x) => x,
        };
        proof {
            lemma_skip_skip(b@, p1 as int, p2 - p1);
        }
        let (calldata, p3) = match read_bytes(b, p2) {
            None => return None,
            Some(x) => x,
        };
        proof {
            lemma_skip_skip(b@, p2 as int, p3 - p2);
        }
        let (pow_nonce, p4) = match read_u64(b, p3) {
            None => return None,
            Some(x) => x,
        };
        Some((Transaction { pub_key, signature, calldata, pow_nonce }, p4))
    }
}

/// One validator's signature over a block hash or a slot's null hash.
#[derive(Clone, Copy, Debug, PartialEq)]
pub struct Notarization {
    pub validator_index: u64,
    pub signature: Signature,
}

pub struct NotarizationModel {
    pub validator_index: u64,
    pub signature: Seq<u8>,
}

impl View for Notarization {
    type V = NotarizationModel;

    open spec fn view(&self) -> NotarizationModel {
        NotarizationModel {
            validator_index: self.validator_index,
            signature: self.signature@,
        }
    }
}

/// Written as its fields in order.
impl Wire for Notarization {
    open spec fn wf_model(m: NotarizationModel) -> bool {
        m.signature.len() == 64
    }

    open spec fn enc(m: NotarizationModel) -> Seq<u8> {
        enc_u64(m.validator_index) + m.signature
    }

    open spec fn parse(s: Seq<u8>) -> Option<(NotarizationModel, int)> {
        match parse_u64(s) {
            None => None,
            Some((v_validator_index, k0)) =>                 match parse_fixed(s.skip(k0), 64) {
                    None => None,
                    Some((v_signature, k1)) =>                         Some((NotarizationModel { validator_index: v_validator_index, signature: v_signature }, k0 + k1)),
                },
        }
    }

    proof fn lemma_round_trip(m: NotarizationModel, rest: Seq<u8>) {
        let t1 = m.signature + rest;
        assert(Self::enc(m) + rest =~= enc_u64(m.validator_index) + t1);
        lemma_u64_round_trip(m.validator_index, t1);
        lemma_skip_prefix(enc_u64(m.validator_index), t1);
        lemma_fixed_round_trip(m.signature, rest);
        lemma_skip_prefix(m.signature, rest);
    }

    proof fn lemma_parse_wf(s: Seq<u8>) {
    }

    fn write(&self, out: &mut Vec<u8>) {
        write_u64(self.validator_index, out);
        self.signature.write(out);
        assert(final(out)@ =~= old(out)@ + Self::enc(self@));
    }

    fn read(b: &[u8], pos: usize) -> (r: Option<(Notarization, usize)>) {
        let (validator_index, p1) = match read_u64(b, pos) {
            None => return None,
            Some(x) => x,
        };
        proof {
            lemma_skip_skip(b@, pos as int, p1 - pos);
        }
        let (signature, p2) = match Signature::read(b, p1) {
            None => return None,
            Some(x) => x,
        };
        Some((Notarization { validator_index, signature }, p2))
    }
}

/// The signed part of a block: its hash is the hash of this encoding.
#[derive(Clone, Debug, PartialEq)]
pub struct BlockData {
    pub height: u64,
    pub transactions: Vec<Transaction>,
    /// Hash of the nearest block before this height in the view chain.
    pub previous_block_hash: Sha256Digest,
}

pub struct BlockDataModel {
    pub height: u64,
    pub transactions: Seq<TransactionModel>,
    pub previous_block_hash: Seq<u8>,
}

impl View for BlockData {
    type V = BlockDataModel;

    open spec fn view(&self) -> BlockDataModel {
        BlockDataModel {
            height: self.height,
            transactions: models(self.transactions@),
            previous_block_hash: self.previous_block_hash@,
        }
    }
}

/// Written as its fields in order.
impl Wire for BlockData {
    open spec fn wf_model(m: BlockDataModel) -> bool {
        &&& wf_list::<Transaction>(m.transactions)
        &&& m.previous_block_hash.len() == 32
    }

    open spec fn enc(m: BlockDataModel) -> Seq<u8> {
        enc_u64(m.height) + enc_list::<Transaction>(m.transactions) + m.previous_block_hash
    }

    open spec fn parse(s: Seq<u8>) -> Option<(BlockDataModel, int)> {
        match parse_u64(s) {
            None => None,
            Some((v_height, k0)) =>                 match parse_list::<Transaction>(s.skip(k0)) {
                    None => None,
                    Some((v_transactions, k1)) =>                         match parse_fixed(s.skip(k0).skip(k1), 32) {
                            None => None,
                            Some((v_previous_block_hash, k2)) =>                                 Some((BlockDataModel { height: v_height, transactions: v_transactions, previous_block_hash: v_previous_block_hash }, k0 + k1 + k2)),
                        },
                },
        }
    }

    proof fn lemma_round_trip(m: BlockDataModel, rest: Seq<u8>) {
        let t2 = m.previous_block_hash + rest;
        let t1 = enc_list::<Transaction>(m.transactions) + t2;
        assert(Self::enc(m) + rest =~= enc_u64(m.height) + t1);
        lemma_u64_round_trip(m.height, t1);
        lemma_skip_prefix(enc_u64(m.height), t1);
        lemma_list_round_trip::<Transaction>(m.transactions, t2);
        lemma_skip_prefix(enc_list::<Transaction>(m.transactions), t2);
        lemma_fixed_round_trip(m.previous_block_hash, rest);
        lemma_skip_prefix(m.previous_block_hash, rest);
    }

    proof fn lemma_parse_wf(s: Seq<u8>) {
        if let Some((_, k0)) = parse_u64(s) {
            lemma_parse_list_wf::<Transaction>(s.skip(k0));
        }
    }

    fn write(&self, out: &mut Vec<u8>) {
        write_u64(self.height, out);
        write_list(&self.transactions, out);
        self.previous_block_hash.write(out);
        assert(final(out)@ =~= old(out)@ + Self::enc(self@));
    }

    fn read(b: &[u8], pos: usize) -> (r: Option<(BlockData, usize)>) {
        let (height, p1) = match read_u64(b, pos) {
            None => return None,
            Some(x) => x,
        };
        proof {
            lemma_skip_skip(b@, pos as int, p1 - pos);
        }
        let (transactions, p2) = match read_list::<Transaction>(b, p1) {
            None => return None,
            Some(x) => x,
        };
        proof {
            lemma_skip_skip(b@, p1 as int, p2 - p1);
        }
        let (previous_block_hash, p3) = match Sha256Digest::read(b, p2) {
            None => return None,
            Some(x) => x,
        };
        Some((BlockData { height, transactions, previous_block_hash }, p3))
    }
}

/// A block proposal, signed by the slot's leader.
#[derive(Clone, Debug, PartialEq)]
pub struct Block {
    pub height: u64,
    pub transactions: Vec<Transaction>,
    pub previous_block_hash: Sha256Digest,
    pub slot_leader_signature: Signature,
}

pub struct BlockModel {
    pub height: u64,
    pub transactions: Seq<TransactionModel>,
    pub previous_block_hash: Seq<u8>,
    pub slot_leader_signature: Seq<u8>,
}

impl View for Block {
    type V = BlockModel;

    open spec fn view(&self) -> BlockModel {
        BlockModel {
            height: self.height,
            transactions: models(self.transactions@),
            previous_block_hash: self.previous_block_hash@,
            slot_leader_signature: self.slot_leader_signature@,
        }
    }
}

/// Written as its fields in order.
impl Wire for Block {
    open spec fn wf_model(m: BlockModel) -> bool {
        &&& wf_list::<Transaction>(m.transactions)
        &&& m.previous_block_hash.len() == 32
        &&& m.slot_leader_signature.len() == 64
    }

    open spec fn enc(m: BlockModel) -> Seq<u8> {
        enc_u64(m.height) + enc_list::<Transaction>(m.transactions) + m.previous_block_hash + m.slot_leader_signature
    }

    open spec fn parse(s: Seq<u8>) -> Option<(BlockModel, int)> {
        match parse_u64(s) {
            None => None,
            Some((v_height, k0)) =>                 match parse_list::<Transaction>(s.skip(k0)) {
                    None => None,
                    Some((v_transactions, k1)) =>                         match parse_fixed(s.skip(k0).skip(k1), 32) {
                            None => None,
                            Some((v_previous_block_hash, k2)) =>                                 match parse_fixed(s.skip(k0).skip(k1).skip(k2), 64) {
                                    None => None,
                                    Some((v_slot_leader_signature, k3)) =>                                         Some((BlockModel { height: v_height, transactions: v_transactions, previous_block_hash: v_previous_block_hash, slot_leader_signature: v_slot_leader_signature }, k0 + k1 + k2 + k3)),
                                },
                        },
                },
        }
    }

    proof fn lemma_round_trip(m: BlockModel, rest: Seq<u8>) {
        let t3 = m.slot_leader_signature + rest;
        let t2 = m.previous_block_hash + t3;
        let t1 = enc_list::<Transaction>(m.transactions) + t2;
        assert(Self::enc(m) + rest =~= enc_u64(m.height) + t1);
        lemma_u64_round_trip(m.height, t1);
        lemma_skip_prefix(enc_u64(m.height), t1);
        lemma_list_round_trip::<Transaction>(m.transactions, t2);
        lemma_skip_prefix(enc_list::<Transaction>(m.transactions), t2);
        lemma_fixed_round_trip(m.previous_block_hash, t3);
        lemma_skip_prefix(m.previous_block_hash, t3);
        lemma_fixed_round_trip(m.slot_leader_signature, rest);
        lemma_skip_prefix(m.slot_leader_signature, rest);
    }

    proof fn lemma_parse_wf(s: Seq<u8>) {
        if let Some((_, k0)) = parse_u64(s) {
            lemma_parse_list_wf::<Transaction>(s.skip(k0));
        }
    }

    fn write(&self, out: &mut Vec<u8>) {
        write_u64(self.height, out);
        write_list(&self.transactions, out);
        self.previous_block_hash.write(out);
        self.slot_leader_signature.write(out);
        assert(final(out)@ =~= old(out)@ + Self::enc(self@));
    }

    fn read(b: &[u8], pos: usize) -> (r: Option<(Block, usize)>) {
        let (height, p1) = match read_u64(b, pos) {
            None => return None,
            Some(x) => x,
        };
        proof {
            lemma_skip_skip(b@, pos as int, p1 - pos);
        }
        let (transactions, p2) = match read_list::<Transaction>(b, p1) {
            None => return None,
            Some(x) => x,
        };
        proof {
            lemma_skip_skip(b@, p1 as int, p2 - p1);
        }
        let (previous_block_hash, p3) = match Sha256Digest::read(b, p2) {
            None => return None,
            Some(x) => x,
        };
        proof {
            lemma_skip_skip(b@, p2 as int, p3 - p2);
        }
        let (slot_leader_signature, p4) = match Signature::read(b, p3) {
            None => return None,
            Some(x) => x,
        };
        Some((Block { height, transactions, previous_block_hash, slot_leader_signature }, p4))
    }
}

/// A block with the votes that agreed on it.
#[derive(Clone, Debug, PartialEq)]
pub struct NotarizedBlock {
    pub height: u64,
    pub transactions: Vec<Transaction>,
    pub previous_block_hash: Sha256Digest,
    pub slot_leader_signature: Signature,
    pub votes: Vec<Notarization>,
}

pub struct NotarizedBlockModel {
    pub height: u64,
    pub transactions: Seq<TransactionModel>,
    pub previous_block_hash: Seq<u8>,
    pub slot_leader_signature: Seq<u8>,
    pub votes: Seq<NotarizationModel>,
}

impl View for NotarizedBlock {
    type V = NotarizedBlockModel;

    open spec fn view(&self) -> NotarizedBlockModel {
        NotarizedBlockModel {
            height: self.height,
            transactions: models(self.transactions@),
            previous_block_hash: self.previous_block_hash@,
            slot_leader_signature: self.slot_leader_signature@,
            votes: models(self.votes@),
        }
    }
}

/// Written as its fields in order.
impl Wire for NotarizedBlock {
    open spec fn wf_model(m: NotarizedBlockModel) -> bool {
        &&& wf_list::<Transaction>(m.transactions)
        &&& m.previous_block_hash.len() == 32
        &&& m.slot_leader_signature.len() == 64
        &&& wf_list::<Notarization>(m.votes)
    }

    open spec fn enc(m: NotarizedBlockModel) -> Seq<u8> {
        enc_u64(m.height) + enc_list::<Transaction>(m.transactions) + m.previous_block_hash + m.slot_leader_signature + enc_list::<Notarization>(m.votes)
    }

    open spec fn parse(s: Seq<u8>) -> Option<(NotarizedBlockModel, int)> {
        match parse_u64(s) {
            None => None,
            Some((v_height, k0)) =>                 match parse_list::<Transaction>(s.skip(k0)) {
                    None => None,
                    Some((v_transactions, k1)) =>                         match parse_fixed(s.skip(k0).skip(k1), 32) {
                            None => None,
                            Some((v_previous_block_hash, k2)) =>                                 match parse_fixed(s.skip(k0).skip(k1).skip(k2), 64) {
                                    None => None,
                                    Some((v_slot_leader_signature, k3)) =>                                         match parse_list::<Notarization>(s.skip(k0).skip(k1).skip(k2).skip(k3)) {
                                            None => None,
                                            Some((v_votes, k4)) =>                                                 Some((NotarizedBlockModel { height: v_height, transactions: v_transactions, previous_block_hash: v_previous_block_hash, slot_leader_signature: v_slot_leader_signature, votes: v_votes }, k0 + k1 + k2 + k3 + k4)),
                                        },
                                },
                        },
                },
        }
    }

    proof fn lemma_round_trip(m: NotarizedBlockModel, rest: Seq<u8>) {
        let t4 = enc_list::<Notarization>(m.votes) + rest;
        let t3 = m.slot_leader_signature + t4;
        let t2 = m.previous_block_hash + t3;
        let t1 = enc_list::<Transaction>(m.transactions) + t2;
        assert(Self::enc(m) + rest =~= enc_u64(m.height) + t1);
        lemma_u64_round_trip(m.height, t1);
        lemma_skip_prefix(enc_u64(m.height), t1);
        lemma_list_round_trip::<Transaction>(m.transactions, t2);
        lemma_skip_prefix(enc_list::<Transaction>(m.transactions), t2);
        lemma_fixed_round_trip(m.previous_block_hash, t3);
        lemma_skip_prefix(m.previous_block_hash, t3);
        lemma_fixed_round_trip(m.slot_leader_signature, t4);
        lemma_skip_prefix(m.slot_leader_signature, t4);
        lemma_list_round_trip::<Notarization>(m.votes, rest);
        lemma_skip_prefix(enc_list::<Notarization>(m.votes), rest);
    }

    proof fn lemma_parse_wf(s: Seq<u8>) {
        if let Some((_, k0)) = parse_u64(s) {
            lemma_parse_list_wf::<Transaction>(s.skip(k0));
            if let Some((_, k1)) = parse_list::<Transaction>(s.skip(k0)) {
                if let Some((_, k2)) = parse_fixed(s.skip(k0).skip(k1), 32) {
                    if let Some((_, k3)) = parse_fixed(s.skip(k0).skip(k1).skip(k2), 64) {
                        lemma_parse_list_wf::<Notarization>(s.skip(k0).skip(k1).skip(k2).skip(k3));
                    }
                }
            }
        }
    }

    fn write(&self, out: &mut Vec<u8>) {
        write_u64(self.height, out);
        write_list(&self.transactions, out);
        self.previous_block_hash.write(out);
        self.slot_leader_signature.write(out);
        write_list(&self.votes, out);
        assert(final(out)@ =~= old(out)@ + Self::enc(self@));
    }

    fn read(b: &[u8], pos: usize) -> (r: Option<(NotarizedBlock, usize)>) {
        let (height, p1) = match read_u64(b, pos) {
            None => return None,
            Some(x) => x,
        };
        proof {
            lemma_skip_skip(b@, pos as int, p1 - pos);
        }
        let (transactions, p2) = match read_list::<Transaction>(b, p1) {
            None => return None,
            Some(x) => x,
        };
        proof {
            lemma_skip_skip(b@, p1 as int, p2 - p1);
        }
        let (previous_block_hash, p3) = match Sha256Digest::read(b, p2) {
            None => return None,
            Some(x) => x,
        };
        proof {
            lemma_skip_skip(b@, p2 as int, p3 - p2);
        }
        let (slot_leader_signature, p4) = match Signature::read(b, p3) {
            None => return None,
            Some(x) => x,
        };
        proof {
            lemma_skip_skip(b@, p3 as int, p4 - p3);
        }
        let (votes, p5) = match read_list::<Notarization>(b, p4) {
            None => return None,
            Some(x) => x,
        };
        Some((NotarizedBlock { height, transactions, previous_block_hash, slot_leader_signature, votes }, p5))
    }
}

/// The votes that agreed that no block is finalized at a height.
#[derive(Clone, Debug, PartialEq)]
pub struct NotarizedNullification {
    pub height: u64,
    pub votes: Vec<Notarization>,
}

pub struct NotarizedNullificationModel {
    pub height: u64,
    pub votes: Seq<NotarizationModel>,
}

impl View for NotarizedNullification {
    type V = NotarizedNullificationModel;

    open spec fn view(&self) -> NotarizedNullificationModel {
        NotarizedNullificationModel {
            height: self.height,
            votes: models(self.votes@),
        }
    }
}

/// Written as its fields in order.
impl Wire for NotarizedNullification {
    open spec fn wf_model(m: NotarizedNullificationModel) -> bool {
        wf_list::<Notarization>(m.votes)
    }

    open spec fn enc(m: NotarizedNullificationModel) -> Seq<u8> {
        enc_u64(m.height) + enc_list::<Notarization>(m.votes)
    }

    open spec fn parse(s: Seq<u8>) -> Option<(NotarizedNullificationModel, int)> {
        match parse_u64(s) {
            None => None,
            Some((v_height, k0)) =>                 match parse_list::<Notarization>(s.skip(k0)) {
                    None => None,
                    Some((v_votes, k1)) =>                         Some((NotarizedNullificationModel { height: v_height, votes: v_votes }, k0 + k1)),
                },
        }
    }

    proof fn lemma_round_trip(m: NotarizedNullificationModel, rest: Seq<u8>) {
        let t1 = enc_list::<Notarization>(m.votes) + rest;
        assert(Self::enc(m) + rest =~= enc_u64(m.height) + t1);
        lemma_u64_round_trip(m.height, t1);
        lemma_skip_prefix(enc_u64(m.height), t1);
        lemma_list_round_trip::<Notarization>(m.votes, rest);
        lemma_skip_prefix(enc_list::<Notarization>(m.votes), rest);
    }

    proof fn lemma_parse_wf(s: Seq<u8>) {
        if let Some((_, k0)) = parse_u64(s) {
            lemma_parse_list_wf::<Notarization>(s.skip(k0));
        }
    }

    fn write(&self, out: &mut Vec<u8>) {
        write_u64(self.height, out);
        write_list(&self.votes, out);
        assert(final(out)@ =~= old(out)@ + Self::enc(self@));
    }

    fn read(b: &[u8], pos: usize) -> (r: Option<(NotarizedNullification, usize)>) {
        let (height, p1) = match read_u64(b, pos) {
            None => return None,
            Some(x) => x,
        };
        proof {
            lemma_skip_skip(b@, pos as int, p1 - pos);
        }
        let (votes, p2) = match read_list::<Notarization>(b, p1) {
            None => return None,
            Some(x) => x,
        };
        Some((NotarizedNullification { height, votes }, p2))
    }
}

/// A block hash with its height.
#[derive(Clone, Copy, Debug, PartialEq)]
pub struct BlockConsensusHeader {
    pub block_hash: Sha256Digest,
    pub height: u64,
}

pub struct BlockConsensusHeaderModel {
    pub block_hash: Seq<u8>,
    pub height: u64,
}

impl View for BlockConsensusHeader {
    type V = BlockConsensusHeaderModel;

    open spec fn view(&self) -> BlockConsensusHeaderModel {
        BlockConsensusHeaderModel {
            block_hash: self.block_hash@,
            height: self.height,
        }
    }
}

/// Written as its fields in order.
impl Wire for BlockConsensusHeader {
    open spec fn wf_model(m: BlockConsensusHeaderModel) -> bool {
        m.block_hash.len() == 32
    }

    open spec fn enc(m: BlockConsensusHeaderModel) -> Seq<u8> {
        m.block_hash + enc_u64(m.height)
    }

    open spec fn parse(s: Seq<u8>) -> Option<(BlockConsensusHeaderModel, int)> {
        match parse_fixed(s, 32) {
            None => None,
            Some((v_block_hash, k0)) =>                 match parse_u64(s.skip(k0)) {
                    None => None,
                    Some((v_height, k1)) =>                         Some((BlockConsensusHeaderModel { block_hash: v_block_hash, height: v_height }, k0 + k1)),
                },
        }
    }

    proof fn lemma_round_trip(m: BlockConsensusHeaderModel, rest: Seq<u8>) {
        let t1 = enc_u64(m.height) + rest;
        assert(Self::enc(m) + rest =~= m.block_hash + t1);
        lemma_fixed_round_trip(m.block_hash, t1);
        lemma_skip_prefix(m.block_hash, t1);
        lemma_u64_round_trip(m.height, rest);
        lemma_skip_prefix(enc_u64(m.height), rest);
    }

    proof fn lemma_parse_wf(s: Seq<u8>) {
    }

    fn write(&self, out: &mut Vec<u8>) {
        self.block_hash.write(out);
        write_u64(self.height, out);
        assert(final(out)@ =~= old(out)@ + Self::enc(self@));
    }

    fn read(b: &[u8], pos: usize) -> (r: Option<(BlockConsensusHeader, usize)>) {
        let (block_hash, p1) = match Sha256Digest::read(b, pos) {
            None => return None,
            Some(x) => x,
        };
        proof {
            lemma_skip_skip(b@, pos as int, p1 - pos);
        }
        let (height, p2) = match read_u64(b, p1) {
            None => return None,
            Some(x) => x,
        };
        Some((BlockConsensusHeader { block_hash, height }, p2))
    }
}

/// A validator's signed vote for a block at a slot.
#[derive(Clone, Copy, Debug, PartialEq)]
pub struct BlockVote {
    pub block_hash: Sha256Digest,
    pub slot_height: u64,
    pub signature: Signature,
    pub validator_index: u64,
}

pub struct BlockVoteModel {
    pub block_hash: Seq<u8>,
    pub slot_height: u64,
    pub signature: Seq<u8>,
    pub validator_index: u64,
}

impl View for BlockVote {
    type V = BlockVoteModel;

    open spec fn view(&self) -> BlockVoteModel {
        BlockVoteModel {
            block_hash: self.block_hash@,
            slot_height: self.slot_height,
            signature: self.signature@,
            validator_index: self.validator_index,
        }
    }
}

/// Written as its fields in order.
impl Wire for BlockVote {
    open spec fn wf_model(m: BlockVoteModel) -> bool {
        &&& m.block_hash.len() == 32
        &&& m.signature.len() == 64
    }

    open spec fn enc(m: BlockVoteModel) -> Seq<u8> {
        m.block_hash + enc_u64(m.slot_height) + m.signature + enc_u64(m.validator_index)
    }

    open spec fn parse(s: Seq<u8>) -> Option<(BlockVoteModel, int)> {
        match parse_fixed(s, 32) {
            None => None,
            Some((v_block_hash, k0)) =>                 match parse_u64(s.skip(k0)) {
                    None => None,
                    Some((v_slot_height, k1)) =>                         match parse_fixed(s.skip(k0).skip(k1), 64) {
                            None => None,
                            Some((v_signature, k2)) =>                                 match parse_u64(s.skip(k0).skip(k1).skip(k2)) {
                                    None => None,
                                    Some((v_validator_index, k3)) =>                                         Some((BlockVoteModel { block_hash: v_block_hash, slot_height: v_slot_height, signature: v_signature, validator_index: v_validator_index }, k0 + k1 + k2 + k3)),
                                },
                        },
                },
        }
    }

    proof fn lemma_round_trip(m: BlockVoteModel, rest: Seq<u8>) {
        let t3 = enc_u64(m.validator_index) + rest;
        let t2 = m.signature + t3;
        let t1 = enc_u64(m.slot_height) + t2;
        assert(Self::enc(m) + rest =~= m.block_hash + t1);
        lemma_fixed_round_trip(m.block_hash, t1);
        lemma_skip_prefix(m.block_hash, t1);
        lemma_u64_round_trip(m.slot_height, t2);
        lemma_skip_prefix(enc_u64(m.slot_height), t2);
        lemma_fixed_round_trip(m.signature, t3);
        lemma_skip_prefix(m.signature, t3);
        lemma_u64_round_trip(m.validator_index, rest);
        lemma_skip_prefix(enc_u64(m.validator_index), rest);
    }

    proof fn lemma_parse_wf(s: Seq<u8>) {
    }

    fn write(&self, out: &mut Vec<u8>) {
        self.block_hash.write(out);
        write_u64(self.slot_height, out);
        self.signature.write(out);
        write_u64(self.validator_index, out);
        assert(final(out)@ =~= old(out)@ + Self::enc(self@));
    }

    fn read(b: &[u8], pos: usize) -> (r: Option<(BlockVote, usize)>) {
        let (block_hash, p1) = match Sha256Digest::read(b, pos) {
            None => return None,
            Some(x) => x,
        };
        proof {
            lemma_skip_skip(b@, pos as int, p1 - pos);
        }
        let (slot_height, p2) = match read_u64(b, p1) {
            None => return None,
            Some(x) => x,
        };
        proof {
            lemma_skip_skip(b@, p1 as int, p2 - p1);
        }
        let (signature, p3) = match Signature::read(b, p2) {
            None => return None,
            Some(x) => x,
        };
        proof {
            lemma_skip_skip(b@, p2 as int, p3 - p2);
        }
        let (validator_index, p4) = match read_u64(b, p3) {
            None => return None,
            Some(x) => x,
        };
        Some((BlockVote { block_hash, slot_height, signature, validator_index }, p4))
    }
}

/// A validator's signed vote that a slot be nullified.
#[derive(Clone, Copy, Debug, PartialEq)]
pub struct NullVote {
    pub slot_height: u64,
    pub signature: Signature,
    pub validator_index: u64,
}

pub struct NullVoteModel {
    pub slot_height: u64,
    pub signature: Seq<u8>,
    pub validator_index: u64,
}

impl View for NullVote {
    type V = NullVoteModel;

    open spec fn view(&self) -> NullVoteModel {
        NullVoteModel {
            slot_height: self.slot_height,
            signature: self.signature@,
            validator_index: self.validator_index,
        }
    }
}

/// Written as its fields in order.
impl Wire for NullVote {
    open spec fn wf_model(m: NullVoteModel) -> bool {
        m.signature.len() == 64
    }

    open spec fn enc(m: NullVoteModel) -> Seq<u8> {
        enc_u64(m.slot_height) + m.signature + enc_u64(m.validator_index)
    }

    open spec fn parse(s: Seq<u8>) -> Option<(NullVoteModel, int)> {
        match parse_u64(s) {
            None => None,
            Some((v_slot_height, k0)) =>                 match parse_fixed(s.skip(k0), 64) {
                    None => None,
                    Some((v_signature, k1)) =>                         match parse_u64(s.skip(k0).skip(k1)) {
                            None => None,
                            Some((v_validator_index, k2)) =>                                 Some((NullVoteModel { slot_height: v_slot_height, signature: v_signature, validator_index: v_validator_index }, k0 + k1 + k2)),
                        },
                },
        }
    }

    proof fn lemma_round_trip(m: NullVoteModel, rest: Seq<u8>) {
        let t2 = enc_u64(m.validator_index) + rest;
        let t1 = m.signature + t2;
        assert(Self::enc(m) + rest =~= enc_u64(m.slot_height) + t1);
        lemma_u64_round_trip(m.slot_height, t1);
        lemma_skip_prefix(enc_u64(m.slot_height), t1);
        lemma_fixed_round_trip(m.signature, t2);
        lemma_skip_prefix(m.signature, t2);
        lemma_u64_round_trip(m.validator_index, rest);
        lemma_skip_prefix(enc_u64(m.validator_index), rest);
    }

    proof fn lemma_parse_wf(s: Seq<u8>) {
    }

    fn write(&self, out: &mut Vec<u8>) {
        write_u64(self.slot_height, out);
        self.signature.write(out);
        write_u64(self.validator_index, out);
        assert(final(out)@ =~= old(out)@ + Self::enc(self@));
    }

    fn read(b: &[u8], pos: usize) -> (r: Option<(NullVote, usize)>) {
        let (slot_height, p1) = match read_u64(b, pos) {
            None => return None,
            Some(x) => x,
        };
        proof {
            lemma_skip_skip(b@, pos as int, p1 - pos);
        }
        let (signature, p2) = match Signature::read(b, p1) {
            None => return None,
            Some(x) => x,
        };
        proof {
            lemma_skip_skip(b@, p1 as int, p2 - p1);
        }
        let (validator_index, p3) = match read_u64(b, p2) {
            None => return None,
            Some(x) => x,
        };
        Some((NullVote { slot_height, signature, validator_index }, p3))
    }
}

/// The agreed outcome of a height.
#[derive(Clone, Debug, PartialEq)]
pub enum SlotState {
    Block(NotarizedBlock),
    Nullification(NotarizedNullification),
}

pub enum SlotStateModel {
    Block(NotarizedBlockModel),
    Nullification(NotarizedNullificationModel),
}

impl View for SlotState {
    type V = SlotStateModel;

    open spec fn view(&self) -> SlotStateModel {
        match self {
            SlotState::Block(b) => SlotStateModel::Block(b@),
            SlotState::Nullification(n) => SlotStateModel::Nullification(n@),
        }
    }
}

/// Written as a tag byte (0 for a block, 1 for a nullification), then the outcome.
impl Wire for SlotState {
    open spec fn wf_model(m: SlotStateModel) -> bool {
        match m {
            SlotStateModel::Block(b) => NotarizedBlock::wf_model(b),
            SlotStateModel::Nullification(n) => NotarizedNullification::wf_model(n),
        }
    }

    open spec fn enc(m: SlotStateModel) -> Seq<u8> {
        match m {
            SlotStateModel::Block(b) => enc_u8(0) + NotarizedBlock::enc(b),
            SlotStateModel::Nullification(n) => enc_u8(1) + NotarizedNullification::enc(n),
        }
    }

    open spec fn parse(s: Seq<u8>) -> Option<(SlotStateModel, int)> {
        match parse_u8(s) {
            None => None,
            Some((t, k)) => if t == 0 {
                match NotarizedBlock::parse(s.skip(k)) {
                    None => None,
                    Some((b, m)) => Some((SlotStateModel::Block(b), k + m)),
                }
            } else if t == 1 {
                match NotarizedNullification::parse(s.skip(k)) {
                    None => None,
                    Some((n, m)) => Some((SlotStateModel::Nullification(n), k + m)),
                }
            } else {
                None
            },
        }
    }

    proof fn lemma_round_trip(m: SlotStateModel, rest: Seq<u8>) {
        match m {
            SlotStateModel::Block(b) => {
                let t = NotarizedBlock::enc(b) + rest;
                assert(Self::enc(m) + rest =~= enc_u8(0) + t);
                lemma_u8_round_trip(0, t);
                NotarizedBlock::lemma_round_trip(b, rest);
            },
            SlotStateModel::Nullification(n) => {
                let t = NotarizedNullification::enc(n) + rest;
                assert(Self::enc(m) + rest =~= enc_u8(1) + t);
                lemma_u8_round_trip(1, t);
                NotarizedNullification::lemma_round_trip(n, rest);
            },
        }
    }

    proof fn lemma_parse_wf(s: Seq<u8>) {
        if s.len() >= 1 {
            NotarizedBlock::lemma_parse_wf(s.skip(1));
            NotarizedNullification::lemma_parse_wf(s.skip(1));
        }
    }

    fn write(&self, out: &mut Vec<u8>) {
        match self {
            SlotState::Block(b) => {
                write_u8(0, out);
                b.write(out);
            },
            SlotState::Nullification(n) => {
                write_u8(1, out);
                n.write(out);
            },
        }
        assert(final(out)@ =~= old(out)@ + Self::enc(self@));
    }

    fn read(b: &[u8], pos: usize) -> (r: Option<(SlotState, usize)>) {
        let (t, p) = match read_u8(b, pos) {
            None => return None,
            Some(x) => x,
        };
        proof {
            lemma_skip_skip(b@, pos as int, 1);
        }
        if t == 0 {
            match NotarizedBlock::read(b, p) {
                None => None,
                Some((nb, q)) => Some((SlotState::Block(nb), q)),
            }
        } else if t == 1 {
            match NotarizedNullification::read(b, p) {
                None => None,
                Some((nn, q)) => Some((SlotState::Nullification(nn), q)),
            }
        } else {
            None
        }
    }
}

/// The namespace that separates null-vote hashes from block hashes.
pub open spec fn null_namespace() -> Seq<u8> {
    seq![110u8, 117u8, 108u8, 108u8, 105u8, 102u8, 105u8, 99u8, 97u8, 116u8, 105u8, 111u8, 110u8, 95u8, 100u8, 111u8, 109u8, 97u8, 105u8, 110u8]
}

/// The encoding of a block's signed part.
pub open spec fn enc_block_data(height: u64, transactions: Seq<TransactionModel>, previous: Seq<u8>) -> Seq<u8> {
    enc_u64(height) + enc_list::<Transaction>(transactions) + previous
}

/// The hash that identifies a block and that its leader and voters sign.
pub open spec fn block_hash_of(height: u64, transactions: Seq<TransactionModel>, previous: Seq<u8>) -> Seq<u8> {
    sha256_of(enc_block_data(height, transactions, previous))
}

/// The hash that a null vote for `height` signs.
pub open spec fn null_hash_of(height: u64) -> Seq<u8> {
    sha256_of(null_namespace() + enc_u64(height))
}

/// The hash of the proof-of-work input: the nonce, then the key.
pub open spec fn pow_hash_of(t: TransactionModel) -> Seq<u8> {
    sha256_of(enc_u64(t.pow_nonce) + t.pub_key)
}

/// The hash that identifies a transaction: that of its whole encoding.
pub open spec fn txhash_of(t: TransactionModel) -> Seq<u8> {
    sha256_of(Transaction::enc(t))
}

/// Appends the encoding of a block's signed part.
fn write_block_data(height: u64, transactions: &Vec<Transaction>, previous: &Sha256Digest, out: &mut Vec<u8>)
    requires
        wf_list::<Transaction>(models(transactions@)),
    ensures
        final(out)@ == old(out)@ + enc_block_data(height, models(transactions@), previous@),
{
    write_u64(height, out);
    write_list(transactions, out);
    previous.write(out);
    assert(final(out)@ =~= old(out)@ + enc_block_data(height, models(transactions@), previous@));
}

impl BlockData {
    pub fn calculate_block_hash(&self) -> (r: Sha256Digest)
        requires
            BlockData::wf_model(self@),
        ensures
            r@ == block_hash_of(self.height, models(self.transactions@), self.previous_block_hash@),
    {
        let mut bytes: Vec<u8> = Vec::new();
        write_block_data(self.height, &self.transactions, &self.previous_block_hash, &mut bytes);
        assert(bytes@ =~= enc_block_data(self.height, models(self.transactions@), self.previous_block_hash@));
        hash(bytes.as_slice())
    }
}

impl Block {
    /// The block's hash: that of its height, transactions and parent hash.
    pub open spec fn spec_hash(self) -> Seq<u8> {
        block_hash_of(self.height, models(self.transactions@), self.previous_block_hash@)
    }

    pub fn calculate_block_hash(&self) -> (r: Sha256Digest)
        requires
            Block::wf_model(self@),
        ensures
            r@ == self.spec_hash(),
    {
        let mut bytes: Vec<u8> = Vec::new();
        write_block_data(self.height, &self.transactions, &self.previous_block_hash, &mut bytes);
        assert(bytes@ =~= enc_block_data(self.height, models(self.transactions@), self.previous_block_hash@));
        hash(bytes.as_slice())
    }
}

impl NotarizedBlock {
    /// The block's hash, the votes left out.
    pub open spec fn spec_hash(self) -> Seq<u8> {
        block_hash_of(self.height, models(self.transactions@), self.previous_block_hash@)
    }

    pub fn calculate_block_hash(&self) -> (r: Sha256Digest)
        requires
            NotarizedBlock::wf_model(self@),
        ensures
            r@ == self.spec_hash(),
    {
        let mut bytes: Vec<u8> = Vec::new();
        write_block_data(self.height, &self.transactions, &self.previous_block_hash, &mut bytes);
        assert(bytes@ =~= enc_block_data(self.height, models(self.transactions@), self.previous_block_hash@));
        hash(bytes.as_slice())
    }
}

/// The input of a null vote's hash: a fixed namespace and the slot height.
#[derive(Clone, Copy, Debug)]
pub struct NullificationDigest {
    pub namespace: [u8; 20],
    pub slot_height: u64,
}

impl NullificationDigest {
    pub fn calculate_hash(&self) -> (r: Sha256Digest)
        ensures
            r@ == sha256_of(self.namespace@ + enc_u64(self.slot_height)),
    {
        let mut bytes: Vec<u8> = Vec::new();
        write_raw(self.namespace.as_slice(), &mut bytes);
        write_u64(self.slot_height, &mut bytes);
        assert(bytes@ =~= self.namespace@ + enc_u64(self.slot_height));
        hash(bytes.as_slice())
    }
}

/// The hash that a null vote for `height` signs.
pub fn calculate_null_hash(height: u64) -> (r: Sha256Digest)
    ensures
        r@ == null_hash_of(height),
{
    let namespace: [u8; 20] = [110, 117, 108, 108, 105, 102, 105, 99, 97, 116, 105, 111, 110, 95, 100, 111, 109, 97, 105, 110];
    assert(namespace@ =~= null_namespace());
    let digest = NullificationDigest { namespace, slot_height: height };
    digest.calculate_hash()
}

impl Transaction {
    /// The hash that must fall below the proof-of-work threshold.
    pub fn calculate_pow_hash(&self) -> (r: Sha256Digest)
        ensures
            r@ == pow_hash_of(self@),
    {
        let mut bytes: Vec<u8> = Vec::new();
        write_u64(self.pow_nonce, &mut bytes);
        self.pub_key.write(&mut bytes);
        assert(bytes@ =~= enc_u64(self.pow_nonce) + self.pub_key@);
        hash(bytes.as_slice())
    }

    /// The hash that the transaction's signature covers.
    pub fn calculate_calldata_hash(&self) -> (r: Sha256Digest)
        ensures
            r@ == sha256_of(self.calldata@),
    {
        hash(self.calldata.as_slice())
    }

    /// The hash that identifies the transaction.
    pub fn calculate_txhash(&self) -> (r: Sha256Digest)
        requires
            Transaction::wf_model(self@),
        ensures
            r@ == txhash_of(self@),
    {
        let bytes = encode(self);
        hash(bytes.as_slice())
    }
}

impl Transaction {
    /// A copy of this transaction.
    pub fn duplicate(&self) -> (r: Transaction)
        ensures
            r@ == self@,
    {
        Transaction {
            pub_key: self.pub_key,
            signature: self.signature,
            calldata: vstd::slice::slice_to_vec(self.calldata.as_slice()),
            pow_nonce: self.pow_nonce,
        }
    }
}

/// A copy of a list of transactions.
pub fn copy_transactions(v: &Vec<Transaction>) -> (r: Vec<Transaction>)
    ensures
        models(r@) == models(v@),
{
    let mut r: Vec<Transaction> = Vec::new();
    let mut i: usize = 0;
    while i < v.len()
        invariant
            i <= v@.len(),
            models(r@) == models(v@.take(i as int)),
        decreases v@.len() - i,
    {
        r.push(v[i].duplicate());
        assert(models(v@.take(i + 1)) =~= models(v@.take(i as int)).push(v@[i as int]@));
        assert(models(r@) =~= models(v@.take(i + 1)));
        i = i + 1;
    }
    assert(v@.take(i as int) =~= v@);
    r
}

impl Block {
    /// A copy of this block.
    pub fn duplicate(&self) -> (r: Block)
        ensures
            r@ == self@,
    {
        Block {
            height: self.height,
            transactions: copy_transactions(&self.transactions),
            previous_block_hash: self.previous_block_hash,
            slot_leader_signature: self.slot_leader_signature,
        }
    }
}

/// A vote as it reaches the consensus core.
#[derive(Clone, Copy, Debug, PartialEq)]
pub enum ConsensusMessage {
    BlockVote(BlockVote),
    NullVote(NullVote),
}

} // verus!
