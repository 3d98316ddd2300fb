//! The peer book that drives discovery: which peers are known, how a pulled
//! peer list refreshes it, and which peers to try connecting to. Time is in
//! milliseconds, handed in by the owner that runs the discovery loop.

use vstd::prelude::*;

use crate::crypto::{insecure_generate_new_static_identity, Keystore, PublicKey};
use crate::handshake::LatestPeerConnectionState;
use crate::messages::{Endpoint, GetPeersEntry};

verus! {

/// A previously connected peer is refreshed from a pulled list only after a day.
pub const REFRESH_AFTER_MS: u64 = 86400000;

/// A failed peer is tried again after ten seconds.
pub const RETRY_AFTER_MS: u64 = 10000;

/// The number of connections discovery aims for.
pub const TARGET_PEERS: usize = 200;

/// What is remembered of a peer across sessions.
#[derive(Clone, Copy, Debug, PartialEq, Eq, Structural)]
pub enum PeerHistory {
    LastConnectionTime(u64),
    NeverConnectedAddedAt(u64),
    BootstrappingNode,
}

/// How connecting to a peer has gone since this node started.
#[derive(Clone, Copy, Debug, PartialEq, Eq, Structural)]
pub enum PeerSessionState {
    SuccessfullyConnected,
    UnsuccessfulConnection(u64),
    NotTried,
}

/// A known peer.
#[derive(Clone, Copy, Debug, PartialEq)]
pub struct NodeRecord {
    pub p2p_key: PublicKey,
    pub endpoint: Endpoint,
    pub state: PeerHistory,
    pub session_state: PeerSessionState,
}

/// A live connection as the peer set reports it.
#[derive(Clone, Copy, Debug, PartialEq)]
pub struct PeerData {
    pub identity: PublicKey,
    pub endpoint: Endpoint,
    pub latest_peer_connection_state: LatestPeerConnectionState,
}

/// The position of the record for `key`, if any.
pub open spec fn record_index(records: Seq<NodeRecord>, key: PublicKey) -> int {
    if exists|i: int| 0 <= i < records.len() && records[i].p2p_key == key {
        choose|i: int|
            0 <= i < records.len() && records[i].p2p_key == key && forall|j: int|
                0 <= j < i ==> records[j].p2p_key != key
    } else {
        -1
    }
}

/// A record that a pulled peer list may overwrite at `now`: one never
/// connected, or one last connected more than a day ago; never a bootstrapping node.
pub open spec fn refreshable(r: NodeRecord, now: u64) -> bool {
    match r.state {
        PeerHistory::LastConnectionTime(t) => now > t && now - t > REFRESH_AFTER_MS,
        PeerHistory::NeverConnectedAddedAt(_) => true,
        PeerHistory::BootstrappingNode => false,
    }
}

/// A peer to try connecting to at `now`: never tried, or failed more than ten seconds ago.
pub open spec fn worth_trying(r: NodeRecord, now: u64) -> bool {
    match r.session_state {
        PeerSessionState::NotTried => true,
        PeerSessionState::UnsuccessfulConnection(t) => now > t && now - t > RETRY_AFTER_MS,
        PeerSessionState::SuccessfullyConnected => false,
    }
}

/// The positions, in order, of the records below `n` worth trying at `now`.
pub open spec fn positions_worth_trying(records: Seq<NodeRecord>, n: int, now: u64) -> Seq<usize>
    decreases n,
{
    if n <= 0 {
        Seq::empty()
    } else {
        let rest = positions_worth_trying(records, n - 1, now);
        if worth_trying(records[n - 1], now) {
            rest.push((n - 1) as usize)
        } else {
            rest
        }
    }
}

/// The record of a peer just learnt of at `now`.
pub open spec fn fresh_record(key: PublicKey, endpoint: Endpoint, now: u64) -> NodeRecord {
    NodeRecord {
        p2p_key: key,
        endpoint,
        state: PeerHistory::NeverConnectedAddedAt(now),
        session_state: PeerSessionState::NotTried,
    }
}

/// Every record of `records` is one of `source`.
pub open spec fn drawn_from(records: Seq<NodeRecord>, source: Seq<NodeRecord>) -> bool {
    forall|i: int|
        #![trigger records[i]]
        0 <= i < records.len() ==> exists|j: int| 0 <= j < source.len() && records[i] == #[trigger] source[j]
}

/// The records after one pulled entry at `now`: never this node itself; a new
/// peer is added; a known one is overwritten only where refreshable.
pub open spec fn merged_one(
    records: Seq<NodeRecord>,
    local_key: PublicKey,
    entry: GetPeersEntry,
    now: u64,
) -> Seq<NodeRecord> {
    if entry.p2p_key == local_key {
        records
    } else {
        let i = record_index(records, entry.p2p_key);
        if i < 0 {
            records.push(fresh_record(entry.p2p_key, entry.endpoint, now))
        } else if refreshable(records[i], now) {
            records.update(i, fresh_record(entry.p2p_key, entry.endpoint, now))
        } else {
            records
        }
    }
}

/// The records after a pulled list, taken entry by entry.
pub open spec fn merged(
    records: Seq<NodeRecord>,
    local_key: PublicKey,
    entries: Seq<GetPeersEntry>,
    now: u64,
) -> Seq<NodeRecord>
    decreases entries.len(),
{
    if entries.len() == 0 {
        records
    } else {
        merged_one(merged(records, local_key, entries.drop_last(), now), local_key, entries.last(), now)
    }
}

/// The records with `key` marked connected at `now`: overwritten, or added.
pub open spec fn with_success(records: Seq<NodeRecord>, key: PublicKey, endpoint: Endpoint, now: u64) -> Seq<NodeRecord> {
    let rec = NodeRecord {
        p2p_key: key,
        endpoint,
        state: PeerHistory::LastConnectionTime(now),
        session_state: PeerSessionState::SuccessfullyConnected,
    };
    let i = record_index(records, key);
    if i < 0 {
        records.push(rec)
    } else {
        records.update(i, rec)
    }
}

/// The records after the live connections are reconciled, in order.
pub open spec fn synced(records: Seq<NodeRecord>, peers: Seq<PeerData>, now: u64) -> Seq<NodeRecord>
    decreases peers.len(),
{
    if peers.len() == 0 {
        records
    } else {
        let before = synced(records, peers.drop_last(), now);
        let p = peers.last();
        if p.latest_peer_connection_state == LatestPeerConnectionState::Success {
            with_success(before, p.identity, p.endpoint, now)
        } else {
            before
        }
    }
}

/// The peers this node knows of, one record per key.
#[derive(Clone, Debug)]
pub struct PeerBook {
    pub records: Vec<NodeRecord>,
}

impl PeerBook {
    /// No record shares a key with another.
    pub open spec fn wf(self) -> bool {
        forall|i: int, j: int|
            0 <= i < j < self.records@.len() ==> self.records@[i].p2p_key != self.records@[j].p2p_key
    }

    /// A book holding the initial peers (the first record of a repeated key is kept).
    pub fn new(initial_peers: Vec<NodeRecord>) -> (r: PeerBook)
        ensures
            r.wf(),
            drawn_from(r.records@, initial_peers@),
    {
        let mut book = PeerBook { records: Vec::new() };
        let mut i: usize = 0;
        while i < initial_peers.len()
            invariant
                i <= initial_peers@.len(),
                book.wf(),
                drawn_from(book.records@, initial_peers@),
            decreases initial_peers@.len() - i,
        {
            let r = initial_peers[i];
            if book.find(&r.p2p_key).is_none() {
                let ghost before = book.records@;
                book.records.push(r);
                assert forall|k: int| #![trigger book.records@[k]] 0 <= k < book.records@.len() implies exists|j: int|
                    0 <= j < initial_peers@.len() && book.records@[k] == #[trigger] initial_peers@[j] by {
                    if k < before.len() {
                        assert(book.records@[k] == before[k]);
                    } else {
                        assert(book.records@[k] == initial_peers@[i as int]);
                    }
                }
            }
            i = i + 1;
        }
        book
    }

    /// The position of the record for `key`, if any.
    pub fn find(&self, key: &PublicKey) -> (r: Option<usize>)
        ensures
            match r {
                Some(i) => i == record_index(self.records@, *key) && i < self.records@.len()
                    && self.records@[i as int].p2p_key == *key,
                None => record_index(self.records@, *key) == -1 && forall|j: int|
                    0 <= j < self.records@.len() ==> self.records@[j].p2p_key != *key,
            },
    {
        let mut i: usize = 0;
        while i < self.records.len()
            invariant
                i <= self.records@.len(),
                forall|j: int| 0 <= j < i ==> self.records@[j].p2p_key != *key,
            decreases self.records@.len() - i,
        {
            if self.records[i].p2p_key == *key {
                let ghost k = record_index(self.records@, *key);
                assert(0 <= i < self.records@.len() && self.records@[i as int].p2p_key == *key);
                assert(k == i) by {
                    if k < i {
                        assert(self.records@[k].p2p_key != *key);
                    }
                }
                return Some(i);
            }
            i = i + 1;
        }
        None
    }

    /// Takes in one peer of a pulled list at `now`: never this node itself; a
    /// new peer is added; a known one is overwritten only where refreshable.
    pub fn merge_peer(&mut self, local_key: &PublicKey, entry: GetPeersEntry, now: u64)
        requires
            old(self).wf(),
        ensures
            final(self).wf(),
            final(self).records@ == merged_one(old(self).records@, *local_key, entry, now),
    {
        if entry.p2p_key == *local_key {
            return;
        }
        let fresh = NodeRecord {
            p2p_key: entry.p2p_key,
            endpoint: entry.endpoint,
            state: PeerHistory::NeverConnectedAddedAt(now),
            session_state: PeerSessionState::NotTried,
        };
        match self.find(&entry.p2p_key) {
            None => {
                self.records.push(fresh);
            },
            Some(i) => {
                let overwrite = match self.records[i].state {
                    PeerHistory::LastConnectionTime(t) => now > t && now - t > REFRESH_AFTER_MS,
                    PeerHistory::NeverConnectedAddedAt(_) => true,
                    PeerHistory::BootstrappingNode => false,
                };
                if overwrite {
                    self.records.set(i, fresh);
                }
            },
        }
    }

    /// Takes in a pulled peer list, entry by entry.
    pub fn add_peers(&mut self, local_key: &PublicKey, entries: &Vec<GetPeersEntry>, now: u64)
        requires
            old(self).wf(),
        ensures
            final(self).wf(),
            final(self).records@ == merged(old(self).records@, *local_key, entries@, now),
    {
        let mut k: usize = 0;
        while k < entries.len()
            invariant
                k <= entries@.len(),
                self.wf(),
                self.records@ == merged(old(self).records@, *local_key, entries@.take(k as int), now),
            decreases entries@.len() - k,
        {
            self.merge_peer(local_key, entries[k], now);
            assert(entries@.take(k + 1).drop_last() =~= entries@.take(k as int));
            k = k + 1;
        }
        assert(entries@.take(k as int) =~= entries@);
    }

    /// Marks a peer as connected at `now`, adding it if unknown.
    pub fn record_success(&mut self, key: PublicKey, endpoint: Endpoint, now: u64)
        requires
            old(self).wf(),
        ensures
            final(self).wf(),
            final(self).records@ == with_success(old(self).records@, key, endpoint, now),
    {
        let rec = NodeRecord {
            p2p_key: key,
            endpoint,
            state: PeerHistory::LastConnectionTime(now),
            session_state: PeerSessionState::SuccessfullyConnected,
        };
        match self.find(&key) {
            None => self.records.push(rec),
            Some(i) => self.records.set(i, rec),
        }
    }

    /// Reconciles the live connections into the book: each connection that
    /// succeeded marks its peer connected at `now`, in order; others change nothing.
    pub fn sync_peer_state_to_record(&mut self, peers: &Vec<PeerData>, now: u64)
        requires
            old(self).wf(),
        ensures
            final(self).wf(),
            final(self).records@ == synced(old(self).records@, peers@, now),
    {
        let mut k: usize = 0;
        while k < peers.len()
            invariant
                k <= peers@.len(),
                self.wf(),
                self.records@ == synced(old(self).records@, peers@.take(k as int), now),
            decreases peers@.len() - k,
        {
            let p = peers[k];
            if p.latest_peer_connection_state == LatestPeerConnectionState::Success {
                self.record_success(p.identity, p.endpoint, now);
            }
            assert(peers@.take(k + 1).drop_last() =~= peers@.take(k as int));
            k = k + 1;
        }
        assert(peers@.take(k as int) =~= peers@);
    }

    /// Records that the connection to `key` was cleaned up at `now`.
    pub fn record_disconnected(&mut self, key: &PublicKey, now: u64)
        requires
            old(self).wf(),
        ensures
            final(self).wf(),
            ({
                let i = record_index(old(self).records@, *key);
                &&& i < 0 ==> final(self).records@ == old(self).records@
                &&& i >= 0 ==> final(self).records@ == old(self).records@.update(
                    i,
                    NodeRecord {
                        state: PeerHistory::LastConnectionTime(now),
                        session_state: PeerSessionState::UnsuccessfulConnection(now),
                        ..old(self).records@[i]
                    },
                )
            }),
    {
        if let Some(i) = self.find(key) {
            let r = self.records[i];
            self.records.set(
                i,
                NodeRecord {
                    state: PeerHistory::LastConnectionTime(now),
                    session_state: PeerSessionState::UnsuccessfulConnection(now),
                    ..r
                },
            );
        }
    }

    /// Records how an attempt to connect to the peer at `position` ended.
    pub fn record_attempt(&mut self, position: usize, connected: bool, now: u64)
        requires
            old(self).wf(),
        ensures
            final(self).wf(),
            position < old(self).records@.len() ==> final(self).records@ == old(self).records@.update(
                position as int,
                NodeRecord {
                    session_state: if connected {
                        PeerSessionState::SuccessfullyConnected
                    } else {
                        PeerSessionState::UnsuccessfulConnection(now)
                    },
                    ..old(self).records@[position as int]
                },
            ),
            position >= old(self).records@.len() ==> final(self).records@ == old(self).records@,
    {
        if position < self.records.len() {
            let r = self.records[position];
            let session_state = if connected {
                PeerSessionState::SuccessfullyConnected
            } else {
                PeerSessionState::UnsuccessfulConnection(now)
            };
            self.records.set(position, NodeRecord { session_state, ..r });
        }
    }

    /// The positions of the peers to try connecting to at `now`, given
    /// `current_peers` live connections: none once the target is reached.
    pub fn peers_to_connect(&self, current_peers: usize, now: u64) -> (r: Vec<usize>)
        ensures
            current_peers >= TARGET_PEERS ==> r@.len() == 0,
            current_peers < TARGET_PEERS ==> r@ == positions_worth_trying(
                self.records@,
                self.records@.len() as int,
                now,
            ),
    {
        let mut r: Vec<usize> = Vec::new();
        if current_peers >= TARGET_PEERS {
            return r;
        }
        let mut i: usize = 0;
        while i < self.records.len()
            invariant
                i <= self.records@.len(),
                r@ == positions_worth_trying(self.records@, i as int, now),
            decreases self.records@.len() - i,
        {
            let rec = self.records[i];
            let worth = match rec.session_state {
                PeerSessionState::NotTried => true,
                PeerSessionState::UnsuccessfulConnection(t) => now > t && now - t > RETRY_AFTER_MS,
                PeerSessionState::SuccessfullyConnected => false,
            };
            if worth {
                r.push(i);
            }
            i = i + 1;
        }
        r
    }
}

/// The first port of a local test network.
pub const TESTNET_FIRST_PORT: u16 = 8021;

/// The loopback address, as an IPv4-mapped IPv6 address.
pub open spec fn loopback() -> Seq<u8> {
    seq![0u8, 0, 0, 0, 0, 0, 0, 0, 0, 0, 255, 255, 127, 0, 0, 1]
}

fn loopback_endpoint(port: u16) -> (r: Endpoint)
    ensures
        r.ip@ == loopback(),
        r.port == port,
{
    let r = Endpoint { ip: [0, 0, 0, 0, 0, 0, 0, 0, 0, 0, 255, 255, 127, 0, 0, 1], port };
    assert(r.ip@ =~= loopback());
    r
}

/// One node of a local test network.
#[derive(Clone, Debug)]
pub struct TestNetNode {
    pub keystore: Keystore,
    pub endpoint: Endpoint,
    pub node_records: Vec<NodeRecord>,
}

/// A local network of `peers` nodes: node `i` has the keys from seed `i + 1`
/// and listens on loopback at port 8021 + `i`; node 0 bootstraps the others,
/// which know only it.
pub fn generate_local_test_network_single_bootstrapping_node(peers: u64) -> (r: Vec<TestNetNode>)
    requires
        peers <= 65535 - TESTNET_FIRST_PORT,
    ensures
        r@.len() == if peers == 0 { 1 } else { peers as int },
        forall|i: int|
            0 <= i < r@.len() ==> {
                &&& (#[trigger] r@[i]).endpoint.port == TESTNET_FIRST_PORT + i
                &&& r@[i].endpoint.ip@ == loopback()
                &&& r@[i].keystore.private_key.seed@ == crate::crypto::PrivateKey::from_seed_spec(
                    (i + 1) as u64,
                )
                &&& i == 0 ==> r@[i].node_records@.len() == 0
                &&& i > 0 ==> r@[i].node_records@.len() == 1 && r@[i].node_records@[0].p2p_key@
                    == crate::crypto::ed25519_public_of(r@[0].keystore.p2p_key.seed@) && r@[i].node_records@[0].state
                    == PeerHistory::BootstrappingNode && r@[i].node_records@[0].session_state
                    == PeerSessionState::NotTried && r@[i].node_records@[0].endpoint == r@[0].endpoint
            },
{
    let mut nodes: Vec<TestNetNode> = Vec::new();
    let boot_keys = insecure_generate_new_static_identity(1);
    let boot_endpoint = loopback_endpoint(TESTNET_FIRST_PORT);
    let boot_key = boot_keys.p2p_key.public_key();
    nodes.push(TestNetNode { keystore: boot_keys, endpoint: boot_endpoint, node_records: Vec::new() });
    let mut i: u64 = 2;
    while i <= peers
        invariant
            2 <= i,
            i <= peers + 1 || i == 2,
            peers <= 65535 - TESTNET_FIRST_PORT,
            nodes@.len() == i - 1,
            boot_key@ == crate::crypto::ed25519_public_of(nodes@[0].keystore.p2p_key.seed@),
            boot_endpoint == nodes@[0].endpoint,
            forall|k: int|
                0 <= k < nodes@.len() ==> {
                    &&& (#[trigger] nodes@[k]).endpoint.port == TESTNET_FIRST_PORT + k
                    &&& nodes@[k].endpoint.ip@ == loopback()
                    &&& nodes@[k].keystore.private_key.seed@ == crate::crypto::PrivateKey::from_seed_spec(
                        (k + 1) as u64,
                    )
                    &&& k == 0 ==> nodes@[k].node_records@.len() == 0
                    &&& k > 0 ==> nodes@[k].node_records@.len() == 1 && nodes@[k].node_records@[0].p2p_key
                        == boot_key && nodes@[k].node_records@[0].state
                        == PeerHistory::BootstrappingNode && nodes@[k].node_records@[0].session_state
                        == PeerSessionState::NotTried && nodes@[k].node_records@[0].endpoint == boot_endpoint
                },
        decreases peers + 1 - i,
    {
        let keystore = insecure_generate_new_static_identity(i);
        let endpoint = loopback_endpoint(TESTNET_FIRST_PORT + (i - 1) as u16);
        let mut node_records: Vec<NodeRecord> = Vec::new();
        node_records.push(
            NodeRecord {
                p2p_key: boot_key,
                endpoint: boot_endpoint,
                state: PeerHistory::BootstrappingNode,
                session_state: PeerSessionState::NotTried,
            },
        );
        let ghost before = nodes@;
        nodes.push(TestNetNode { keystore, endpoint, node_records });
        assert forall|k: int| 0 <= k < nodes@.len() implies {
            &&& (#[trigger] nodes@[k]).endpoint.port == TESTNET_FIRST_PORT + k
            &&& nodes@[k].endpoint.ip@ == loopback()
            &&& nodes@[k].keystore.private_key.seed@ == crate::crypto::PrivateKey::from_seed_spec(
                (k + 1) as u64,
            )
            &&& k == 0 ==> nodes@[k].node_records@.len() == 0
            &&& k > 0 ==> nodes@[k].node_records@.len() == 1 && nodes@[k].node_records@[0].p2p_key
                == boot_key && nodes@[k].node_records@[0].state == PeerHistory::BootstrappingNode
                && nodes@[k].node_records@[0].session_state == PeerSessionState::NotTried
                && nodes@[k].node_records@[0].endpoint == boot_endpoint
        } by {
            if k < before.len() {
                assert(nodes@[k] == before[k]);
            }
        }
        i = i + 1;
    }
    nodes
}

} // verus!
