use vastrum_node::crypto::PrivateKey;
use vastrum_node::discovery::{
    generate_local_test_network_single_bootstrapping_node, NodeRecord, PeerBook, PeerData,
    PeerHistory, PeerSessionState,
};
use vastrum_node::messages::{Endpoint, GetPeersEntry, GetPeersReply};
use vastrum_node::handshake::LatestPeerConnectionState;

const DAY: u64 = 86_400_000;

fn endpoint(port: u16) -> Endpoint {
    let mut ip = [0u8; 16];
    ip[10] = 0xff;
    ip[11] = 0xff;
    ip[12] = 127;
    ip[15] = 1;
    Endpoint { ip, port }
}

fn key(seed: u64) -> vastrum_node::crypto::PublicKey {
    PrivateKey::from_seed(seed).public_key()
}

#[test]
fn self_is_never_added_and_new_peers_are() {
    let mut book = PeerBook::new(vec![]);
    let me = key(1);
    book.add_peers(
        &me,
        &vec![
            GetPeersEntry { p2p_key: me, endpoint: endpoint(1) },
            GetPeersEntry { p2p_key: key(2), endpoint: endpoint(2) },
        ],
        1_000,
    );
    assert_eq!(book.records.len(), 1);
    assert_eq!(book.records[0].p2p_key, key(2));
    assert_eq!(book.records[0].state, PeerHistory::NeverConnectedAddedAt(1_000));
    assert_eq!(book.records[0].session_state, PeerSessionState::NotTried);
}

#[test]
fn connected_peer_is_refreshed_only_after_a_day() {
    let mut book = PeerBook::new(vec![]);
    let me = key(1);
    book.record_success(key(2), endpoint(2), 5_000);
    book.merge_peer(&me, GetPeersEntry { p2p_key: key(2), endpoint: endpoint(9) }, 5_000 + DAY);
    assert_eq!(book.records[0].endpoint, endpoint(2));
    book.merge_peer(&me, GetPeersEntry { p2p_key: key(2), endpoint: endpoint(9) }, 5_001 + DAY);
    assert_eq!(book.records[0].endpoint, endpoint(9));
    assert_eq!(book.records[0].state, PeerHistory::NeverConnectedAddedAt(5_001 + DAY));
}

#[test]
fn never_connected_peer_is_always_refreshed_and_bootstrap_kept() {
    let boot = NodeRecord {
        p2p_key: key(3),
        endpoint: endpoint(3),
        state: PeerHistory::BootstrappingNode,
        session_state: PeerSessionState::NotTried,
    };
    let mut book = PeerBook::new(vec![boot, boot]);
    assert_eq!(book.records.len(), 1);
    let me = key(1);
    book.merge_peer(&me, GetPeersEntry { p2p_key: key(4), endpoint: endpoint(4) }, 10);
    book.merge_peer(&me, GetPeersEntry { p2p_key: key(4), endpoint: endpoint(5) }, 11);
    assert_eq!(book.records[1].endpoint, endpoint(5));
    book.merge_peer(&me, GetPeersEntry { p2p_key: key(3), endpoint: endpoint(6) }, 12);
    assert_eq!(book.records[0], boot);
}

#[test]
fn peers_to_connect_follow_retry_rules() {
    let mut book = PeerBook::new(vec![]);
    let me = key(1);
    for s in 2..6 {
        book.merge_peer(&me, GetPeersEntry { p2p_key: key(s), endpoint: endpoint(s as u16) }, 0);
    }
    assert_eq!(book.peers_to_connect(0, 100), vec![0, 1, 2, 3]);
    assert_eq!(book.peers_to_connect(200, 100), Vec::<usize>::new());
    book.record_attempt(0, true, 100);
    book.record_attempt(1, false, 100);
    assert_eq!(book.peers_to_connect(1, 10_100), vec![2, 3]);
    assert_eq!(book.peers_to_connect(1, 10_101), vec![1, 2, 3]);
    book.record_disconnected(&key(2), 20_000);
    assert_eq!(book.records[0].session_state, PeerSessionState::UnsuccessfulConnection(20_000));
    assert_eq!(book.records[0].state, PeerHistory::LastConnectionTime(20_000));
}

#[test]
fn live_connections_are_recorded() {
    let mut book = PeerBook::new(vec![]);
    book.sync_peer_state_to_record(
        &vec![
            PeerData {
                identity: key(7),
                endpoint: endpoint(7),
                latest_peer_connection_state: LatestPeerConnectionState::Success,
            },
            PeerData {
                identity: key(8),
                endpoint: endpoint(8),
                latest_peer_connection_state: LatestPeerConnectionState::FailedToConnect,
            },
        ],
        50,
    );
    assert_eq!(book.records.len(), 1);
    assert_eq!(book.records[0].session_state, PeerSessionState::SuccessfullyConnected);
    assert_eq!(book.records[0].state, PeerHistory::LastConnectionTime(50));
}

#[test]
fn local_test_network_layout() {
    let nodes = generate_local_test_network_single_bootstrapping_node(5);
    assert_eq!(nodes.len(), 5);
    assert!(nodes[0].node_records.is_empty());
    for (i, n) in nodes.iter().enumerate() {
        assert_eq!(n.endpoint.port, 8021 + i as u16);
        assert_eq!(n.keystore.private_key.seed, PrivateKey::from_seed(i as u64 + 1).seed);
        if i > 0 {
            assert_eq!(n.node_records.len(), 1);
            assert_eq!(n.node_records[0].p2p_key, nodes[0].keystore.p2p_key.public_key());
            assert_eq!(n.node_records[0].state, PeerHistory::BootstrappingNode);
        }
    }
}

#[test]
fn peers_reply_round_trip() {
    let reply = GetPeersReply {
        peers: vec![GetPeersEntry { p2p_key: key(2), endpoint: endpoint(8022) }],
    };
    let bytes = vastrum_node::codec::encode(&reply);
    assert_eq!(bytes.len(), 4 + 32 + 16 + 2);
    assert_eq!(vastrum_node::codec::decode::<GetPeersReply>(&bytes), Ok(reply));
}
