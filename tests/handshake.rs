use vastrum_node::codec::encode;
use vastrum_node::crypto::{PrivateKey, PublicKey, Sha256Digest};
use vastrum_node::handshake::{
    check_first_message_active, check_first_message_passive, check_ping, check_pong,
    connection_timed_out, make_ping, make_pong, HandShakeResults, SuccessfulHandshake,
};
use vastrum_node::messages::{Message, MessageType};

const NOW: u64 = 1_700_000_000;

#[test]
fn ping_and_pong_complete_a_handshake() {
    let a = PrivateKey::from_seed(11);
    let b = PrivateKey::from_seed(12);
    let ping = make_ping(&a, b.public_key(), NOW, 7001);
    assert_eq!(
        check_ping(&ping, &b.public_key(), NOW + 5),
        HandShakeResults::SuccessfulHandshake(SuccessfulHandshake { p2p_key: a.public_key(), port: 7001 })
    );
    let ping_hash = ping.content.calculate_hash();
    let pong = make_pong(&b, a.public_key(), ping_hash, NOW + 5, 7002);
    assert_eq!(
        check_pong(&pong, &ping_hash, &a.public_key(), NOW + 6),
        HandShakeResults::SuccessfulHandshake(SuccessfulHandshake { p2p_key: b.public_key(), port: 7002 })
    );
}

#[test]
fn pong_for_another_ping_is_refused() {
    let a = PrivateKey::from_seed(11);
    let b = PrivateKey::from_seed(12);
    let ping = make_ping(&a, b.public_key(), NOW, 7001);
    let pong = make_pong(&b, a.public_key(), Sha256Digest::from_u64(1), NOW, 7002);
    assert_eq!(
        check_pong(&pong, &ping.content.calculate_hash(), &a.public_key(), NOW),
        HandShakeResults::InvalidPing
    );
}

#[test]
fn stale_pong_is_refused() {
    let a = PrivateKey::from_seed(11);
    let b = PrivateKey::from_seed(12);
    let ping_hash = make_ping(&a, b.public_key(), NOW, 1).content.calculate_hash();
    let pong = make_pong(&b, a.public_key(), ping_hash, NOW, 2);
    assert!(matches!(
        check_pong(&pong, &ping_hash, &a.public_key(), NOW + 29),
        HandShakeResults::SuccessfulHandshake(_)
    ));
    assert_eq!(check_pong(&pong, &ping_hash, &a.public_key(), NOW + 30), HandShakeResults::InvalidPing);
    // a clock up to 29 s behind the sender's still accepts; 30 s does not
    assert!(matches!(
        check_pong(&pong, &ping_hash, &a.public_key(), NOW - 29),
        HandShakeResults::SuccessfulHandshake(_)
    ));
    assert_eq!(check_pong(&pong, &ping_hash, &a.public_key(), NOW - 30), HandShakeResults::InvalidPing);
}

#[test]
fn pong_to_another_node_is_refused() {
    let a = PrivateKey::from_seed(11);
    let b = PrivateKey::from_seed(12);
    let c = PrivateKey::from_seed(13);
    let ping_hash = make_ping(&a, b.public_key(), NOW, 1).content.calculate_hash();
    let pong = make_pong(&b, c.public_key(), ping_hash, NOW, 2);
    assert_eq!(check_pong(&pong, &ping_hash, &a.public_key(), NOW), HandShakeResults::InvalidPing);
}

#[test]
fn forged_ping_is_refused() {
    let a = PrivateKey::from_seed(11);
    let b = PrivateKey::from_seed(12);
    let mut ping = make_ping(&a, b.public_key(), NOW, 7001);
    ping.content.listening_port = 7003;
    assert_eq!(check_ping(&ping, &b.public_key(), NOW), HandShakeResults::InvalidPing);
}

#[test]
fn first_message_must_be_a_handshake() {
    let a = PrivateKey::from_seed(11);
    let b = PrivateKey::from_seed(12);
    let ping = make_ping(&a, b.public_key(), NOW, 7001);
    let statement = Message { id: 0, message_type: MessageType::Statement, payload: encode(&ping) };
    assert_eq!(
        check_first_message_passive(&statement, &b.public_key(), NOW),
        HandShakeResults::FirstMessageReceivedWasNotPing
    );
    let ping_message = Message { id: 0, message_type: MessageType::Ping, payload: encode(&ping) };
    assert_eq!(
        check_first_message_passive(&ping_message, &b.public_key(), NOW),
        HandShakeResults::SuccessfulHandshake(SuccessfulHandshake { p2p_key: a.public_key(), port: 7001 })
    );
    let garbled = Message { id: 0, message_type: MessageType::Ping, payload: vec![1, 2, 3] };
    assert_eq!(check_first_message_passive(&garbled, &b.public_key(), NOW), HandShakeResults::InvalidPing);
    let ping_hash = ping.content.calculate_hash();
    assert_eq!(
        check_first_message_active(&ping_message, &ping_hash, &a.public_key(), NOW),
        HandShakeResults::FirstMessageReceivedWasNotPing
    );
    let pong = make_pong(&b, a.public_key(), ping_hash, NOW, 7002);
    let pong_message = Message { id: 0, message_type: MessageType::Pong, payload: encode(&pong) };
    assert_eq!(
        check_first_message_active(&pong_message, &ping_hash, &a.public_key(), NOW),
        HandShakeResults::SuccessfulHandshake(SuccessfulHandshake { p2p_key: b.public_key(), port: 7002 })
    );
}

#[test]
fn silent_connection_times_out_after_a_minute() {
    assert!(!connection_timed_out(1_000, 61_000));
    assert!(connection_timed_out(1_000, 61_001));
    assert!(!connection_timed_out(5_000, 1_000));
}

#[test]
fn key_bytes_must_encode_a_point() {
    let good = PrivateKey::from_seed(5).public_key();
    assert_eq!(PublicKey::try_from_bytes(good.bytes), Some(good));
    let sig = PrivateKey::from_seed(5).sign(b"m");
    assert!(good.verify_signature(b"m", &sig));
    // about half of all y-coordinates lie on no curve point
    let bad = (2u8..60)
        .map(|y| {
            let mut b = [0u8; 32];
            b[0] = y;
            b
        })
        .find(|b| PublicKey::try_from_bytes(*b).is_none())
        .expect("some small y is off the curve");
    assert!(!PublicKey::from_bytes(bad).verify_signature(b"m", &sig));
}

#[test]
fn decoded_pong_that_fails_the_checks_is_invalid() {
    let a = PrivateKey::from_seed(11);
    let b = PrivateKey::from_seed(12);
    let ping = make_ping(&a, b.public_key(), NOW, 7001);
    let ping_hash = ping.content.calculate_hash();
    let wrong = make_pong(&b, a.public_key(), Sha256Digest::from_u64(9), NOW, 7002);
    let m = Message { id: 0, message_type: MessageType::Pong, payload: encode(&wrong) };
    assert_eq!(check_first_message_active(&m, &ping_hash, &a.public_key(), NOW), HandShakeResults::InvalidPing);
    let stale = make_pong(&b, a.public_key(), ping_hash, NOW - 100, 7002);
    let m = Message { id: 0, message_type: MessageType::Pong, payload: encode(&stale) };
    assert_eq!(check_first_message_active(&m, &ping_hash, &a.public_key(), NOW), HandShakeResults::InvalidPing);
}
