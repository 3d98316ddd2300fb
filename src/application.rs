//! What transactions carry for the application layer, and its place in the
//! wire format.

use vstd::prelude::*;

use crate::codec::{
    enc_bytes, enc_u8, encode, lemma_bytes_round_trip, lemma_fixed_round_trip, lemma_skip_prefix,
    lemma_skip_skip, lemma_u8_round_trip, parse_bytes, parse_fixed, parse_u8, read_bytes, read_u8,
    write_bytes, write_u8, Wire,
};
use crate::crypto::{ed25519_public_of, ed25519_signature_of, hash, sha256_of, PrivateKey, Sha256Digest};
use crate::types::Transaction;

verus! {

/// What a transaction asks of the application.
#[derive(Clone, Copy, Debug, PartialEq, Eq, Structural)]
pub enum TransactionType {
    Call,
    DeployNewComponent,
    AddComponent,
    DeployStoredComponent,
    RegisterDomain,
}

impl View for TransactionType {
    type V = TransactionType;

    open spec fn view(&self) -> TransactionType {
        *self
    }
}

impl TransactionType {
    /// The tag byte of each variant, in declaration order.
    pub open spec fn tag(self) -> u8 {
        match self {
            TransactionType::Call => 0,
            TransactionType::DeployNewComponent => 1,
            TransactionType::AddComponent => 2,
            TransactionType::DeployStoredComponent => 3,
            TransactionType::RegisterDomain => 4,
        }
    }
}

/// Written as its tag byte.
impl Wire for TransactionType {
    open spec fn wf_model(m: TransactionType) -> bool {
        true
    }

    open spec fn enc(m: TransactionType) -> Seq<u8> {
        enc_u8(m.tag())
    }

    open spec fn parse(s: Seq<u8>) -> Option<(TransactionType, int)> {
        match parse_u8(s) {
            None => None,
            Some((t, k)) => 
                if t == 0 {
                    Some((TransactionType::Call, k))
                } else if t == 1 {
                    Some((TransactionType::DeployNewComponent, k))
                } else if t == 2 {
                    Some((TransactionType::AddComponent, k))
                } else if t == 3 {
                    Some((TransactionType::DeployStoredComponent, k))
                } else if t == 4 {
                    Some((TransactionType::RegisterDomain, k))
                } else {
                    None
                },
        }
    }

    proof fn lemma_round_trip(m: TransactionType, rest: Seq<u8>) {
        lemma_u8_round_trip(m.tag(), rest);
    }

    proof fn lemma_parse_wf(s: Seq<u8>) {
    }

    fn write(&self, out: &mut Vec<u8>) {
        let t: u8 = match self {
            TransactionType::Call => 0,
            TransactionType::DeployNewComponent => 1,
            TransactionType::AddComponent => 2,
            TransactionType::DeployStoredComponent => 3,
            TransactionType::RegisterDomain => 4,
        };
        write_u8(t, out);
    }

    fn read(b: &[u8], pos: usize) -> (r: Option<(TransactionType, usize)>) {
        match read_u8(b, pos) {
            None => None,
            Some((t, p)) => 
                if t == 0 {
                    Some((TransactionType::Call, p))
                } else if t == 1 {
                    Some((TransactionType::DeployNewComponent, p))
                } else if t == 2 {
                    Some((TransactionType::AddComponent, p))
                } else if t == 3 {
                    Some((TransactionType::DeployStoredComponent, p))
                } else if t == 4 {
                    Some((TransactionType::RegisterDomain, p))
                } else {
                    None
                },
        }
    }
}

/// The calldata of a transaction: its kind and its arguments.
#[derive(Clone, Debug, PartialEq)]
pub struct TransactionData {
    pub transaction_type: TransactionType,
    pub calldata: Vec<u8>,
}

pub struct TransactionDataModel {
    pub transaction_type: TransactionType,
    pub calldata: Seq<u8>,
}

impl View for TransactionData {
    type V = TransactionDataModel;

    open spec fn view(&self) -> TransactionDataModel {
        TransactionDataModel {
            transaction_type: self.transaction_type,
            calldata: self.calldata@,
        }
    }
}

/// Written as its fields in order.
impl Wire for TransactionData {
    open spec fn wf_model(m: TransactionDataModel) -> bool {
        m.calldata.len() <= u32::MAX
    }

    open spec fn enc(m: TransactionDataModel) -> Seq<u8> {
        TransactionType::enc(m.transaction_type) + enc_bytes(m.calldata)
    }

    open spec fn parse(s: Seq<u8>) -> Option<(TransactionDataModel, int)> {
        match TransactionType::parse(s) {
            None => None,
            Some((v_transaction_type, k0)) =>                 match parse_bytes(s.skip(k0)) {
                    None => None,
                    Some((v_calldata, k1)) =>                         Some((TransactionDataModel { transaction_type: v_transaction_type, calldata: v_calldata }, k0 + k1)),
                },
        }
    }

    proof fn lemma_round_trip(m: TransactionDataModel, rest: Seq<u8>) {
        let t1 = enc_bytes(m.calldata) + rest;
        assert(Self::enc(m) + rest =~= TransactionType::enc(m.transaction_type) + t1);
        TransactionType::lemma_round_trip(m.transaction_type, t1);
        lemma_skip_prefix(TransactionType::enc(m.transaction_type), t1);
        lemma_bytes_round_trip(m.calldata, rest);
        lemma_skip_prefix(enc_bytes(m.calldata), rest);
    }

    proof fn lemma_parse_wf(s: Seq<u8>) {
    }

    fn write(&self, out: &mut Vec<u8>) {
        self.transaction_type.write(out);
        write_bytes(&self.calldata, out);
        assert(final(out)@ =~= old(out)@ + Self::enc(self@));
    }

    fn read(b: &[u8], pos: usize) -> (r: Option<(TransactionData, usize)>) {
        let (transaction_type, p1) = match TransactionType::read(b, pos) {
            None => return None,
            Some(x) => x,
        };
        proof {
            lemma_skip_skip(b@, pos as int, p1 - pos);
        }
        let (calldata, p2) = match read_bytes(b, p1) {
            None => return None,
            Some(x) => x,
        };
        Some((TransactionData { transaction_type, calldata }, p2))
    }
}

/// A call of a deployed site.
#[derive(Clone, Debug, PartialEq)]
pub struct SiteCall {
    pub site_id: Sha256Digest,
    pub args: Vec<u8>,
}

pub struct SiteCallModel {
    pub site_id: Seq<u8>,
    pub args: Seq<u8>,
}

impl View for SiteCall {
    type V = SiteCallModel;

    open spec fn view(&self) -> SiteCallModel {
        SiteCallModel {
            site_id: self.site_id@,
            args: self.args@,
        }
    }
}

/// Written as its fields in order.
impl Wire for SiteCall {
    open spec fn wf_model(m: SiteCallModel) -> bool {
        &&& m.site_id.len() == 32
        &&& m.args.len() <= u32::MAX
    }

    open spec fn enc(m: SiteCallModel) -> Seq<u8> {
        m.site_id + enc_bytes(m.args)
    }

    open spec fn parse(s: Seq<u8>) -> Option<(SiteCallModel, int)> {
        match parse_fixed(s, 32) {
            None => None,
            Some((v_site_id, k0)) =>                 match parse_bytes(s.skip(k0)) {
                    None => None,
                    Some((v_args, k1)) =>                         Some((SiteCallModel { site_id: v_site_id, args: v_args }, k0 + k1)),
                },
        }
    }

    proof fn lemma_round_trip(m: SiteCallModel, rest: Seq<u8>) {
        let t1 = enc_bytes(m.args) + rest;
        assert(Self::enc(m) + rest =~= m.site_id + t1);
        lemma_fixed_round_trip(m.site_id, t1);
        lemma_skip_prefix(m.site_id, t1);
        lemma_bytes_round_trip(m.args, rest);
        lemma_skip_prefix(enc_bytes(m.args), rest);
    }

    proof fn lemma_parse_wf(s: Seq<u8>) {
    }

    fn write(&self, out: &mut Vec<u8>) {
        self.site_id.write(out);
        write_bytes(&self.args, out);
        assert(final(out)@ =~= old(out)@ + Self::enc(self@));
    }

    fn read(b: &[u8], pos: usize) -> (r: Option<(SiteCall, usize)>) {
        let (site_id, p1) = match Sha256Digest::read(b, pos) {
            None => return None,
            Some(x) => x,
        };
        proof {
            lemma_skip_skip(b@, pos as int, p1 - pos);
        }
        let (args, p2) = match read_bytes(b, p1) {
            None => return None,
            Some(x) => x,
        };
        Some((SiteCall { site_id, args }, p2))
    }
}

/// Which component a site runs.
#[derive(Clone, Copy, Debug, PartialEq)]
pub struct SiteData {
    pub site_id: Sha256Digest,
    pub component_id: Sha256Digest,
}

pub struct SiteDataModel {
    pub site_id: Seq<u8>,
    pub component_id: Seq<u8>,
}

impl View for SiteData {
    type V = SiteDataModel;

    open spec fn view(&self) -> SiteDataModel {
        SiteDataModel {
            site_id: self.site_id@,
            component_id: self.component_id@,
        }
    }
}

/// Written as its fields in order.
impl Wire for SiteData {
    open spec fn wf_model(m: SiteDataModel) -> bool {
        &&& m.site_id.len() == 32
        &&& m.component_id.len() == 32
    }

    open spec fn enc(m: SiteDataModel) -> Seq<u8> {
        m.site_id + m.component_id
    }

    open spec fn parse(s: Seq<u8>) -> Option<(SiteDataModel, int)> {
        match parse_fixed(s, 32) {
            None => None,
            Some((v_site_id, k0)) =>                 match parse_fixed(s.skip(k0), 32) {
                    None => None,
                    Some((v_component_id, k1)) =>                         Some((SiteDataModel { site_id: v_site_id, component_id: v_component_id }, k0 + k1)),
                },
        }
    }

    proof fn lemma_round_trip(m: SiteDataModel, rest: Seq<u8>) {
        let t1 = m.component_id + rest;
        assert(Self::enc(m) + rest =~= m.site_id + t1);
        lemma_fixed_round_trip(m.site_id, t1);
        lemma_skip_prefix(m.site_id, t1);
        lemma_fixed_round_trip(m.component_id, rest);
        lemma_skip_prefix(m.component_id, rest);
    }

    proof fn lemma_parse_wf(s: Seq<u8>) {
    }

    fn write(&self, out: &mut Vec<u8>) {
        self.site_id.write(out);
        self.component_id.write(out);
        assert(final(out)@ =~= old(out)@ + Self::enc(self@));
    }

    fn read(b: &[u8], pos: usize) -> (r: Option<(SiteData, usize)>) {
        let (site_id, p1) = match Sha256Digest::read(b, pos) {
            None => return None,
            Some(x) => x,
        };
        proof {
            lemma_skip_skip(b@, pos as int, p1 - pos);
        }
        let (component_id, p2) = match Sha256Digest::read(b, p1) {
            None => return None,
            Some(x) => x,
        };
        Some((SiteData { site_id, component_id }, p2))
    }
}

impl TransactionData {
    /// The hash of the encoding: what the transaction's signature covers when
    /// this encoding is its calldata.
    pub fn calculate_hash(&self) -> (r: Sha256Digest)
        requires
            TransactionData::wf_model(self@),
        ensures
            r@ == sha256_of(TransactionData::enc(self@)),
    {
        let bytes = encode(self);
        hash(bytes.as_slice())
    }
}

impl Transaction {
    /// The transaction carrying `data`, signed by `key`: its calldata is the
    /// encoding of `data`, and its signature covers that encoding's hash.
    pub fn new_signed(key: &PrivateKey, data: &TransactionData, pow_nonce: u64) -> (r: Transaction)
        requires
            TransactionData::wf_model(data@),
        ensures
            r.pub_key@ == ed25519_public_of(key.seed@),
            r.calldata@ == TransactionData::enc(data@),
            r.signature@ == ed25519_signature_of(key.seed@, sha256_of(TransactionData::enc(data@))),
            r.pow_nonce == pow_nonce,
    {
        let calldata_hash = data.calculate_hash();
        Transaction {
            pub_key: key.public_key(),
            signature: key.sign_hash(calldata_hash),
            calldata: encode(data),
            pow_nonce,
        }
    }
}

} // verus!
