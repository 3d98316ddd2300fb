//! The decisions of the connection handshake and of connection liveness. The
//! connection itself (sockets, timers, tasks) belongs to the owner; these
//! functions take what it read and the time, and say what follows.

use vstd::prelude::*;

use crate::codec::{decode, decoded, Wire};
use crate::crypto::{ed25519_accepts, ed25519_public_of, ed25519_signature_of, sha256_of, PrivateKey, PublicKey, Sha256Digest};
use crate::messages::{
    Message, MessageType, PingContent, PingMessage, PongContent, PongMessage,
};

verus! {

/// Seconds within which a handshake message must have been sent.
pub const HANDSHAKE_FRESHNESS_SECS: u64 = 30;

/// Milliseconds of silence after which a connection is cleaned up.
pub const LIVENESS_TIMEOUT_MS: u64 = 60000;

/// Whether a connection is live or has been cleaned up.
#[derive(Clone, Copy, Debug, PartialEq, Eq, Structural)]
pub enum PeerConnectionState {
    Connected,
    DisconnectedCleanUp,
}

/// How the latest attempt to connect to a peer ended.
#[derive(Clone, Copy, Debug, PartialEq, Eq, Structural)]
pub enum LatestPeerConnectionState {
    Success,
    FailedToConnect,
}

/// What a completed handshake teaches about the remote node.
#[derive(Clone, Copy, Debug, PartialEq)]
pub struct SuccessfulHandshake {
    pub p2p_key: PublicKey,
    pub port: u16,
}

/// The outcome of a handshake.
#[derive(Clone, Copy, Debug, PartialEq)]
pub enum HandShakeResults {
    SuccessfulHandshake(SuccessfulHandshake),
    InvalidPing,
    FirstMessageReceivedWasNotPing,
}

/// A message sent at `sent` is fresh at `now` (seconds): the two clocks differ
/// by less than thirty seconds, either way.
pub open spec fn is_fresh(sent: u64, now: u64) -> bool {
    if sent <= now {
        now - sent < HANDSHAKE_FRESHNESS_SECS
    } else {
        sent - now < HANDSHAKE_FRESHNESS_SECS
    }
}

/// A ping is accepted when its sender's signature covers its content, it is
/// fresh, and it is addressed to `local`.
pub open spec fn ping_accepted(p: PingMessage, local: PublicKey, now: u64) -> bool {
    &&& ed25519_accepts(p.content.from_p2p_key@, sha256_of(PingContent::enc(p.content@)), p.signature@)
    &&& is_fresh(p.content.unix_timestamp, now)
    &&& p.content.to_p2p_key == local
}

/// A pong is accepted as a ping is, and when it answers the ping whose hash is `ping_hash`.
pub open spec fn pong_accepted(p: PongMessage, ping_hash: Seq<u8>, local: PublicKey, now: u64) -> bool {
    &&& ed25519_accepts(p.content.from_p2p_key@, sha256_of(PongContent::enc(p.content@)), p.signature@)
    &&& is_fresh(p.content.unix_timestamp, now)
    &&& p.content.to_p2p_key == local
    &&& p.content.ping_message_hash@ == ping_hash
}

fn is_fresh_exec(sent: u64, now: u64) -> (r: bool)
    ensures
        r == is_fresh(sent, now),
{
    if sent <= now {
        now - sent < HANDSHAKE_FRESHNESS_SECS
    } else {
        sent - now < HANDSHAKE_FRESHNESS_SECS
    }
}

/// Checks a ping: the remote's key and port on success, else `InvalidPing`.
pub fn check_ping(ping: &PingMessage, local_key: &PublicKey, now: u64) -> (r: HandShakeResults)
    ensures
        ping_accepted(*ping, *local_key, now) ==> r == HandShakeResults::SuccessfulHandshake(
            SuccessfulHandshake {
                p2p_key: ping.content.from_p2p_key,
                port: ping.content.listening_port,
            },
        ),
        !ping_accepted(*ping, *local_key, now) ==> r == HandShakeResults::InvalidPing,
{
    let content_hash = ping.content.calculate_hash();
    let valid_signature = ping.content.from_p2p_key.verify_signature_hash(
        content_hash,
        &ping.signature,
    );
    let valid_timestamp = is_fresh_exec(ping.content.unix_timestamp, now);
    let valid_dest = ping.content.to_p2p_key == *local_key;
    if valid_signature && valid_timestamp && valid_dest {
        HandShakeResults::SuccessfulHandshake(
            SuccessfulHandshake {
                p2p_key: ping.content.from_p2p_key,
                port: ping.content.listening_port,
            },
        )
    } else {
        HandShakeResults::InvalidPing
    }
}

/// Checks the pong that answers the ping whose hash is `ping_hash`.
pub fn check_pong(pong: &PongMessage, ping_hash: &Sha256Digest, local_key: &PublicKey, now: u64) -> (r:
    HandShakeResults)
    ensures
        pong_accepted(*pong, ping_hash@, *local_key, now) ==> r
            == HandShakeResults::SuccessfulHandshake(
            SuccessfulHandshake {
                p2p_key: pong.content.from_p2p_key,
                port: pong.content.listening_port,
            },
        ),
        !pong_accepted(*pong, ping_hash@, *local_key, now) ==> r == HandShakeResults::InvalidPing,
{
    let content_hash = pong.content.calculate_hash();
    let valid_signature = pong.content.from_p2p_key.verify_signature_hash(
        content_hash,
        &pong.signature,
    );
    let valid_timestamp = is_fresh_exec(pong.content.unix_timestamp, now);
    let valid_dest = pong.content.to_p2p_key == *local_key;
    let valid_hash = pong.content.ping_message_hash == *ping_hash;
    proof {
        if pong.content.ping_message_hash@ == ping_hash@ {
            assert(pong.content.ping_message_hash.data =~= ping_hash.data);
        }
    }
    if valid_signature && valid_timestamp && valid_dest && valid_hash {
        HandShakeResults::SuccessfulHandshake(
            SuccessfulHandshake {
                p2p_key: pong.content.from_p2p_key,
                port: pong.content.listening_port,
            },
        )
    } else {
        HandShakeResults::InvalidPing
    }
}

/// The accepting side's verdict on the first message of a connection: it must
/// be a ping that decodes and is accepted.
pub fn check_first_message_passive(message: &Message, local_key: &PublicKey, now: u64) -> (r:
    HandShakeResults)
    ensures
        !(message.message_type is Ping) ==> r is FirstMessageReceivedWasNotPing,
        message.message_type is Ping ==> match decoded::<PingMessage>(message.payload@) {
            Err(_) => r is InvalidPing,
            Ok(m) => ((exists|p: PingMessage| p@ == m && ping_accepted(p, *local_key, now))
                ==> r is SuccessfulHandshake) && ((forall|p: PingMessage|
                p@ == m ==> !ping_accepted(p, *local_key, now)) ==> r is InvalidPing) && (
            r matches HandShakeResults::SuccessfulHandshake(s) ==> s.p2p_key@ == m.content.from_p2p_key
                && s.port == m.content.listening_port),
        },
{
    match message.message_type {
        MessageType::Ping => {},
        _ => {
            return HandShakeResults::FirstMessageReceivedWasNotPing;
        },
    }
    match decode::<PingMessage>(message.payload.as_slice()) {
        Err(_) => HandShakeResults::InvalidPing,
        Ok(ping) => {
            let r = check_ping(&ping, local_key, now);
            proof {
                if exists|p: PingMessage| p@ == ping@ && ping_accepted(p, *local_key, now) {
                    let p = choose|p: PingMessage| p@ == ping@ && ping_accepted(p, *local_key, now);
                    assert(p.content.to_p2p_key.bytes =~= ping.content.to_p2p_key.bytes);
                }
            }
            r
        },
    }
}

/// The connecting side's verdict on the first message it receives: it must be
/// a pong that decodes and answers its ping.
pub fn check_first_message_active(
    message: &Message,
    ping_hash: &Sha256Digest,
    local_key: &PublicKey,
    now: u64,
) -> (r: HandShakeResults)
    ensures
        !(message.message_type is Pong) ==> r is FirstMessageReceivedWasNotPing,
        message.message_type is Pong ==> match decoded::<PongMessage>(message.payload@) {
            Err(_) => r is InvalidPing,
            Ok(m) => ((exists|p: PongMessage| p@ == m && pong_accepted(p, ping_hash@, *local_key, now))
                ==> r is SuccessfulHandshake) && ((forall|p: PongMessage|
                p@ == m ==> !pong_accepted(p, ping_hash@, *local_key, now)) ==> r is InvalidPing) && (
            r matches HandShakeResults::SuccessfulHandshake(s) ==> s.p2p_key@ == m.content.from_p2p_key
                && s.port == m.content.listening_port),
        },
        r is SuccessfulHandshake ==> message.message_type is Pong,
{
    match message.message_type {
        MessageType::Pong => {},
        _ => {
            return HandShakeResults::FirstMessageReceivedWasNotPing;
        },
    }
    match decode::<PongMessage>(message.payload.as_slice()) {
        Err(_) => HandShakeResults::InvalidPing,
        Ok(pong) => {
            let r = check_pong(&pong, ping_hash, local_key, now);
            proof {
                if exists|p: PongMessage| p@ == pong@ && pong_accepted(p, ping_hash@, *local_key, now) {
                    let p = choose|p: PongMessage| p@ == pong@ && pong_accepted(p, ping_hash@, *local_key, now);
                    assert(p.content.to_p2p_key.bytes =~= pong.content.to_p2p_key.bytes);
                }
            }
            r
        },
    }
}

/// A signed ping from the holder of `key` to `to`, sent at `now`.
pub fn make_ping(key: &PrivateKey, to: PublicKey, now: u64, listening_port: u16) -> (r: PingMessage)
    ensures
        r.content.from_p2p_key@ == ed25519_public_of(key.seed@),
        r.content.to_p2p_key == to,
        r.content.unix_timestamp == now,
        r.content.listening_port == listening_port,
        r.signature@ == ed25519_signature_of(key.seed@, sha256_of(PingContent::enc(r.content@))),
{
    let content = PingContent {
        from_p2p_key: key.public_key(),
        unix_timestamp: now,
        to_p2p_key: to,
        listening_port,
    };
    let content_hash = content.calculate_hash();
    let signature = key.sign_hash(content_hash);
    PingMessage { signature, content }
}

/// A signed pong from the holder of `key` answering the ping whose hash is `ping_hash`.
pub fn make_pong(
    key: &PrivateKey,
    to: PublicKey,
    ping_hash: Sha256Digest,
    now: u64,
    listening_port: u16,
) -> (r: PongMessage)
    ensures
        r.content.from_p2p_key@ == ed25519_public_of(key.seed@),
        r.content.to_p2p_key == to,
        r.content.unix_timestamp == now,
        r.content.listening_port == listening_port,
        r.content.ping_message_hash == ping_hash,
        r.signature@ == ed25519_signature_of(key.seed@, sha256_of(PongContent::enc(r.content@))),
{
    let content = PongContent {
        from_p2p_key: key.public_key(),
        unix_timestamp: now,
        to_p2p_key: to,
        listening_port,
        ping_message_hash: ping_hash,
    };
    let content_hash = content.calculate_hash();
    let signature = key.sign_hash(content_hash);
    PongMessage { signature, content }
}

/// Whether a connection silent since `last_receive` (milliseconds) is dead at `now`.
pub fn connection_timed_out(last_receive: u64, now: u64) -> (r: bool)
    ensures
        r == (now > last_receive && now - last_receive > LIVENESS_TIMEOUT_MS),
{
    now > last_receive && now - last_receive > LIVENESS_TIMEOUT_MS
}

/// The handshake failure on a handshake message: fresh, well signed and
/// addressed pongs that answer another ping are refused.
pub proof fn lemma_pong_for_other_ping_refused(
    pong: PongMessage,
    ping_hash: Sha256Digest,
    local: PublicKey,
    now: u64,
)
    requires
        pong.content.ping_message_hash@ != ping_hash@ || !is_fresh(pong.content.unix_timestamp, now)
            || pong.content.to_p2p_key != local,
    ensures
        !pong_accepted(pong, ping_hash@, local, now),
{
}

} // verus!
