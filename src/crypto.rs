//! Digests, keys and signatures, and the calls into the hash and signature
//! libraries that produce and check them.

use vstd::prelude::*;

use ed25519_consensus::{SigningKey, VerificationKey};
use sha2::Digest;

verus! {

broadcast use vstd::array::group_array_axioms;

/// The 32-byte SHA-256 digest of a byte string.
pub uninterp spec fn sha256_of(data: Seq<u8>) -> Seq<u8>;

/// The Ed25519 verification key derived from a 32-byte secret seed.
pub uninterp spec fn ed25519_public_of(seed: Seq<u8>) -> Seq<u8>;

/// The deterministic Ed25519 signature of `msg` under the key with secret seed `seed`.
pub uninterp spec fn ed25519_signature_of(seed: Seq<u8>, msg: Seq<u8>) -> Seq<u8>;

/// Whether the Ed25519 (ZIP-215) check accepts `sig` over `msg` for the encoded key `key`.
pub uninterp spec fn ed25519_accepts(key: Seq<u8>, msg: Seq<u8>, sig: Seq<u8>) -> bool;

/// Whether 32 bytes encode a point of the curve, so that they can serve as a verification key.
pub uninterp spec fn ed25519_key_valid(key: Seq<u8>) -> bool;

/// The eight big-endian bytes of `v`.
pub open spec fn be_bytes_u64(v: u64) -> Seq<u8> {
    Seq::new(8, |i: int| ((v >> ((7 - i) * 8) as u64) & 0xff) as u8)
}

/// A 32-byte digest.
#[derive(Clone, Copy, Debug)]
pub struct Sha256Digest {
    pub data: [u8; 32],
}

/// An encoded Ed25519 verification key.
#[derive(Clone, Copy, Debug)]
pub struct PublicKey {
    pub bytes: [u8; 32],
}

/// An encoded Ed25519 signature.
#[derive(Clone, Copy, Debug)]
pub struct Signature {
    pub bytes: [u8; 64],
}

/// An Ed25519 secret key, held as its 32-byte seed.
#[derive(Clone, Copy, Debug)]
pub struct PrivateKey {
    pub seed: [u8; 32],
}

impl View for Sha256Digest {
    type V = Seq<u8>;

    open spec fn view(&self) -> Seq<u8> {
        self.data@
    }
}

impl View for PublicKey {
    type V = Seq<u8>;

    open spec fn view(&self) -> Seq<u8> {
        self.bytes@
    }
}

impl View for Signature {
    type V = Seq<u8>;

    open spec fn view(&self) -> Seq<u8> {
        self.bytes@
    }
}

/// Whether two byte arrays of one length hold the same bytes.
fn same_bytes<const N: usize>(a: &[u8; N], b: &[u8; N]) -> (r: bool)
    ensures
        r == (*a == *b),
{
    let mut i: usize = 0;
    while i < N
        invariant
            i <= N,
            a@.len() == N,
            b@.len() == N,
            forall|j: int| 0 <= j < i ==> a@[j] == b@[j],
        decreases N - i,
    {
        if a[i] != b[i] {
            return false;
        }
        i = i + 1;
    }
    assert(*a =~= *b);
    true
}

impl PartialEq for Sha256Digest {
    fn eq(&self, other: &Sha256Digest) -> (r: bool) {
        same_bytes(&self.data, &other.data)
    }
}

impl vstd::std_specs::cmp::PartialEqSpecImpl for Sha256Digest {
    open spec fn obeys_eq_spec() -> bool {
        true
    }

    open spec fn eq_spec(&self, other: &Sha256Digest) -> bool {
        self.data == other.data
    }
}

impl Eq for Sha256Digest {}

impl PartialEq for PublicKey {
    fn eq(&self, other: &PublicKey) -> (r: bool) {
        same_bytes(&self.bytes, &other.bytes)
    }
}

impl vstd::std_specs::cmp::PartialEqSpecImpl for PublicKey {
    open spec fn obeys_eq_spec() -> bool {
        true
    }

    open spec fn eq_spec(&self, other: &PublicKey) -> bool {
        self.bytes == other.bytes
    }
}

impl Eq for PublicKey {}

impl PartialEq for Signature {
    fn eq(&self, other: &Signature) -> (r: bool) {
        same_bytes(&self.bytes, &other.bytes)
    }
}

impl vstd::std_specs::cmp::PartialEqSpecImpl for Signature {
    open spec fn obeys_eq_spec() -> bool {
        true
    }

    open spec fn eq_spec(&self, other: &Signature) -> bool {
        self.bytes == other.bytes
    }
}

impl Eq for Signature {}

impl Sha256Digest {
    /// The digest whose last eight bytes are `data` in big-endian order, the rest zero.
    pub fn from_u64(data: u64) -> (r: Sha256Digest)
        ensures
            r.data@ == Seq::new(24, |i: int| 0u8) + be_bytes_u64(data),
    {
        let mut bytes = [0u8; 32];
        let mut k: usize = 0;
        while k < 8
            invariant
                k <= 8,
                bytes@.len() == 32,
                forall|j: int| 0 <= j < 24 ==> bytes@[j] == 0u8,
                forall|j: int| 0 <= j < k ==> bytes@[24 + j] == be_bytes_u64(data)[j],
            decreases 8 - k,
        {
            bytes[24 + k] = ((data >> ((7 - k as u64) * 8)) & 0xff) as u8;
            k = k + 1;
        }
        assert(bytes@ =~= Seq::new(24, |i: int| 0u8) + be_bytes_u64(data));
        Sha256Digest { data: bytes }
    }

    /// The digest holding `data`.
    pub fn from(data: [u8; 32]) -> (r: Sha256Digest)
        ensures
            r.data == data,
    {
        Sha256Digest { data }
    }

    /// The digest's bytes.
    pub fn to_vec(&self) -> (r: [u8; 32])
        ensures
            r == self.data,
    {
        self.data
    }
}

/// Relies on sha2's `Sha256::digest`: the SHA-256 digest of `data`.
#[verifier::external_body]
pub fn hash(data: &[u8]) -> (r: Sha256Digest)
    ensures
        r.data@ == sha256_of(data@),
{
    Sha256Digest { data: sha2::Sha256::digest(data).into() }
}

/// Relies on ed25519-consensus: `SigningKey::from` a seed, then `verification_key`
/// and its `to_bytes`.
#[verifier::external_body]
fn derive_public_key(seed: [u8; 32]) -> (r: [u8; 32])
    ensures
        r@ == ed25519_public_of(seed@),
{
    SigningKey::from(seed).verification_key().to_bytes()
}

/// Relies on ed25519-consensus: `SigningKey::from` a seed, then `sign`, and the
/// signature's `to_bytes`. A signature made this way verifies under the key
/// derived from the same seed.
#[verifier::external_body]
fn sign_bytes(seed: [u8; 32], msg: &[u8]) -> (r: [u8; 64])
    ensures
        r@ == ed25519_signature_of(seed@, msg@),
        ed25519_accepts(ed25519_public_of(seed@), msg@, r@),
{
    SigningKey::from(seed).sign(msg).to_bytes()
}

/// Relies on ed25519-consensus: `VerificationKey::try_from` the key bytes (an
/// error when they encode no curve point).
#[verifier::external_body]
fn key_decompresses(key: [u8; 32]) -> (r: bool)
    ensures
        r == ed25519_key_valid(key@),
{
    VerificationKey::try_from(key).is_ok()
}

/// Relies on ed25519-consensus: `VerificationKey::try_from` the key bytes (an
/// error when they encode no curve point, and then nothing verifies), then
/// `verify` of the signature `Signature::from` its bytes.
#[verifier::external_body]
fn verify_bytes(key: [u8; 32], msg: &[u8], sig: [u8; 64]) -> (r: bool)
    ensures
        r == ed25519_accepts(key@, msg@, sig@),
        !ed25519_key_valid(key@) ==> !r,
{
    match VerificationKey::try_from(key) {
        Ok(vk) => vk.verify(&ed25519_consensus::Signature::from(sig), msg).is_ok(),
        Err(_) => false,
    }
}

impl PrivateKey {
    /// The seed bytes of the key made from the number `seed`.
    pub open spec fn from_seed_spec(seed: u64) -> Seq<u8> {
        Seq::new(24, |i: int| 0u8) + be_bytes_u64(seed)
    }

    /// The key whose seed holds `seed` big-endian in its last eight bytes.
    pub fn from_seed(seed: u64) -> (r: PrivateKey)
        ensures
            r.seed@ == PrivateKey::from_seed_spec(seed),
    {
        let d = Sha256Digest::from_u64(seed);
        PrivateKey { seed: d.data }
    }

    /// The key with the given seed.
    pub fn from_bytes(bytes: [u8; 32]) -> (r: PrivateKey)
        ensures
            r.seed == bytes,
    {
        PrivateKey { seed: bytes }
    }

    /// The verification key of this key.
    pub fn public_key(&self) -> (r: PublicKey)
        ensures
            r.bytes@ == ed25519_public_of(self.seed@),
    {
        PublicKey { bytes: derive_public_key(self.seed) }
    }

    /// Signs a byte string.
    pub fn sign(&self, data: &[u8]) -> (r: Signature)
        ensures
            r.bytes@ == ed25519_signature_of(self.seed@, data@),
            ed25519_accepts(ed25519_public_of(self.seed@), data@, r.bytes@),
    {
        Signature { bytes: sign_bytes(self.seed, data) }
    }

    /// Signs the 32 bytes of a digest.
    pub fn sign_hash(&self, hash: Sha256Digest) -> (r: Signature)
        ensures
            r.bytes@ == ed25519_signature_of(self.seed@, hash.data@),
            ed25519_accepts(ed25519_public_of(self.seed@), hash.data@, r.bytes@),
    {
        Signature { bytes: sign_bytes(self.seed, hash.data.as_slice()) }
    }
}

impl PublicKey {
    /// The key with the given encoding, if it encodes a curve point.
    pub fn try_from_bytes(bytes: [u8; 32]) -> (r: Option<PublicKey>)
        ensures
            ed25519_key_valid(bytes@) ==> r == Some(PublicKey { bytes }),
            !ed25519_key_valid(bytes@) ==> r is None,
    {
        if key_decompresses(bytes) {
            Some(PublicKey { bytes })
        } else {
            None
        }
    }

    /// The key with the given encoding.
    pub fn from_bytes(bytes: [u8; 32]) -> (r: PublicKey)
        ensures
            r.bytes == bytes,
    {
        PublicKey { bytes }
    }

    /// Whether `signature` is a valid signature of `data` under this key.
    pub fn verify_signature(&self, data: &[u8], signature: &Signature) -> (r: bool)
        ensures
            r == ed25519_accepts(self.bytes@, data@, signature.bytes@),
            !ed25519_key_valid(self.bytes@) ==> !r,
    {
        verify_bytes(self.bytes, data, signature.bytes)
    }

    /// Whether `signature` is a valid signature of the 32 bytes of `data` under this key.
    pub fn verify_signature_hash(&self, data: Sha256Digest, signature: &Signature) -> (r: bool)
        ensures
            r == ed25519_accepts(self.bytes@, data.data@, signature.bytes@),
            !ed25519_key_valid(self.bytes@) ==> !r,
    {
        verify_bytes(self.bytes, data.data.as_slice(), signature.bytes)
    }
}

impl Signature {
    /// The signature with the given encoding.
    pub fn from_bytes(bytes: [u8; 64]) -> (r: Signature)
        ensures
            r.bytes == bytes,
    {
        Signature { bytes }
    }
}

/// The keys of a node: for transactions, for consensus signing, and for its p2p identity.
#[derive(Clone, Copy, Debug)]
pub struct Keystore {
    pub private_key: PrivateKey,
    pub signing_key: PrivateKey,
    pub p2p_key: PrivateKey,
}

/// A key store whose three keys all come from `seed`: predictable, for test networks only.
pub fn insecure_generate_new_static_identity(seed: u64) -> (r: Keystore)
    ensures
        r.private_key.seed@ == Seq::new(24, |i: int| 0u8) + be_bytes_u64(seed),
        r.signing_key == r.private_key,
        r.p2p_key == r.private_key,
{
    let private_key = PrivateKey::from_seed(seed);
    Keystore { private_key, signing_key: private_key, p2p_key: private_key }
}

} // verus!
