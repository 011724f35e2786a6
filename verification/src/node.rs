use vstd::prelude::*;
use rand::seq::IteratorRandom;

use crate::address::{ipv4_mapped, ipv4_of_text, mapped_segments, parse_ipv4, peer_ip_text, peer_ip_text_of};
use crate::error::SeminarNodeError;
use crate::message::{
    decode_error_text, decode_message, encode_message, mainnet_magic, mainnet_magic_bytes,
    wire_decoding, wire_encoding, AddrEntry, Incoming, NetAddress, Outgoing, VersionFields, NO_SERVICES,
};
use crate::peer::{Peer, PeerStatus};

verus! {

/// The protocol version that the node announces.
pub const PROTOCOL_VERSION: u32 = 70016;

/// The port of the Bitcoin main network.
pub const DEFAULT_PORT: u16 = 8333;

/// Above this many known peers, `addr` messages are not stored any more.
pub const MAX_KNOWN_PEERS: u32 = 100;

/// The IP addresses of the peers that the workers are busy with; no address
/// occurs twice.
#[derive(Debug)]
pub struct InUsePeers {
    ips: Vec<String>,
}

impl InUsePeers {
    /// The addresses, in the order in which they were taken.
    pub closed spec fn texts(&self) -> Seq<Seq<char>> {
        self.ips@.map_values(|s: String| s@)
    }

    /// No address occurs twice.
    pub closed spec fn wf(&self) -> bool {
        self.texts().no_duplicates()
    }

    /// The set of addresses in use.
    pub closed spec fn ip_set(&self) -> Set<Seq<char>> {
        self.texts().to_set()
    }

    /// The set of addresses in use is finite.
    pub proof fn lemma_finite(&self)
        ensures
            self.ip_set().finite(),
    {
        vstd::seq_lib::seq_to_set_is_finite(self.texts());
    }

    /// No address is in use.
    pub fn new() -> (r: InUsePeers)
        ensures
            r.wf(),
            r.ip_set() == Set::<Seq<char>>::empty(),
    {
        let r = InUsePeers { ips: Vec::new() };
        assert(r.texts() =~= Seq::<Seq<char>>::empty());
        assert(r.ip_set() =~= Set::<Seq<char>>::empty());
        r
    }

    /// How many addresses are in use.
    pub fn len(&self) -> (r: usize)
        requires
            self.wf(),
        ensures
            r == self.ip_set().len(),
    {
        proof {
            self.texts().unique_seq_to_set();
        }
        self.ips.len()
    }

    /// Whether `ip` is in use.
    pub fn contains(&self, ip: &String) -> (r: bool)
        ensures
            r == self.ip_set().contains(ip@),
    {
        let mut i: usize = 0;
        while i < self.ips.len()
            invariant
                i <= self.ips@.len(),
                forall|j: int| 0 <= j < i ==> self.texts()[j] != ip@,
            decreases self.ips@.len() - i,
        {
            if self.ips[i] == *ip {
                assert(self.texts()[i as int] == ip@);
                return true;
            }
            i = i + 1;
        }
        assert(!self.texts().contains(ip@));
        false
    }

    /// Marks `ip` as in use; tells whether it was not in use before.
    pub fn insert(&mut self, ip: String) -> (r: bool)
        requires
            old(self).wf(),
        ensures
            final(self).wf(),
            final(self).ip_set() == old(self).ip_set().insert(ip@),
            r == !old(self).ip_set().contains(ip@),
    {
        if self.contains(&ip) {
            assert(self.ip_set().insert(ip@) =~= self.ip_set());
            return false;
        }
        let ghost before = self.texts();
        let ghost text = ip@;
        self.ips.push(ip);
        assert(self.texts() =~= before.push(text));
        assert(self.ip_set() =~= before.to_set().insert(text)) by {
            assert forall|t: Seq<char>| self.ip_set().contains(t) <==> before.to_set().insert(text).contains(t) by {
                if self.ip_set().contains(t) {
                    let k = choose|k: int| 0 <= k < self.texts().len() && self.texts()[k] == t;
                    if k < before.len() {
                        assert(before[k] == t);
                    }
                }
                if before.to_set().contains(t) {
                    let k = choose|k: int| 0 <= k < before.len() && before[k] == t;
                    assert(self.texts()[k] == t);
                }
                if t == text {
                    assert(self.texts()[before.len() as int] == t);
                }
            }
        }
        true
    }

    /// Marks `ip` as no longer in use; tells whether it was in use.
    pub fn remove(&mut self, ip: &String) -> (r: bool)
        requires
            old(self).wf(),
        ensures
            final(self).wf(),
            final(self).ip_set() == old(self).ip_set().remove(ip@),
            r == old(self).ip_set().contains(ip@),
    {
        let mut i: usize = 0;
        while i < self.ips.len()
            invariant
                i <= self.ips@.len(),
                self.wf(),
                *self == *old(self),
                forall|j: int| 0 <= j < i ==> self.texts()[j] != ip@,
            decreases self.ips@.len() - i,
        {
            if self.ips[i] == *ip {
                let ghost before = self.texts();
                assert(before[i as int] == ip@);
                self.ips.remove(i);
                assert(self.texts() =~= before.remove(i as int));
                assert(self.texts().no_duplicates()) by {
                    assert forall|a: int, b: int| 0 <= a < b < self.texts().len() implies self.texts()[a] != self.texts()[b] by {
                        let a1 = if a < i { a } else { a + 1 };
                        let b1 = if b < i { b } else { b + 1 };
                        assert(self.texts()[a] == before[a1]);
                        assert(self.texts()[b] == before[b1]);
                    }
                }
                assert(self.ip_set() =~= before.to_set().remove(ip@)) by {
                    assert forall|t: Seq<char>| self.ip_set().contains(t) <==> before.to_set().remove(ip@).contains(t) by {
                        if self.ip_set().contains(t) {
                            let k = choose|k: int| 0 <= k < self.texts().len() && self.texts()[k] == t;
                            if k < i {
                                assert(before[k] == t);
                                assert(k != i);
                            } else {
                                assert(before[k + 1] == t);
                                assert(k + 1 != i);
                            }
                        }
                        if before.to_set().remove(ip@).contains(t) {
                            let k = choose|k: int| 0 <= k < before.len() && before[k] == t;
                            if k < i {
                                assert(self.texts()[k] == t);
                            } else if k > i {
                                assert(self.texts()[k - 1] == t);
                            }
                        }
                    }
                }
                return true;
            }
            i = i + 1;
        }
        assert(!self.texts().contains(ip@));
        assert(self.ip_set().remove(ip@) =~= self.ip_set());
        false
    }
}

/// A peer that a worker may connect to: waiting for a connection, and not
/// taken by another worker.
pub open spec fn is_candidate(p: Peer, in_use: Set<Seq<char>>) -> bool {
    p.status == PeerStatus::Awaiting && !in_use.contains(p.ip@)
}

/// Whether some peer of `peers` is a candidate.
pub open spec fn has_candidate(peers: Seq<Peer>, in_use: Set<Seq<char>>) -> bool {
    exists|i: int| 0 <= i < peers.len() && is_candidate(#[trigger] peers[i], in_use)
}

/// `IteratorRandom::choose` of the `rand` crate over the indices `0..n`, with
/// the thread's generator: `None` exactly when `n` is 0, else an index below
/// `n`; which index is left to chance.
#[verifier::external_body]
fn choose_index(n: usize) -> (r: Option<usize>)
    ensures
        r is None <==> n == 0,
        r matches Some(i) ==> i < n,
{
    (0..n).choose(&mut rand::rng())
}

/// Why a worker did not take a peer.
#[derive(Debug, Clone, Copy, PartialEq, Eq)]
pub enum ClaimRefusal {
    /// As many peers as allowed are in use already.
    SlotsFull,
    /// No known peer is waiting for a connection.
    NoCandidate,
}

/// How a worker's attempt with the peer that it took ended.
#[derive(Debug, Clone, Copy, PartialEq, Eq)]
pub enum AttemptOutcome {
    /// The peer's address is no dotted-quad IPv4 address.
    NoAddress,
    /// The connection to the peer failed, or the node did not keep it.
    ConnectFailed,
    /// The connection was handed on to be served.
    Delivered,
    /// The connection could not be handed on: nothing serves connections any more.
    DeliveryFailed,
}

/// What a worker does next.
#[derive(Debug, Clone, Copy, PartialEq, Eq)]
pub enum WorkerStep {
    /// Take the next peer at once.
    Next,
    /// Wait a while, then take the next peer.
    Retry,
    /// Stop working.
    Stop,
}

/// What the node does with a message that it received.
#[derive(Debug, Clone, PartialEq, Eq)]
pub enum Reaction {
    /// Nothing but to note it.
    Nothing,
    /// Store the addresses that it announces as new peers.
    StoreAddresses(Vec<AddrEntry>),
    /// Answer with a message.
    Reply(Outgoing),
}

/// How a read of the connection ended.
#[derive(Debug, Clone, PartialEq, Eq)]
pub enum ReadOutcome {
    /// This many bytes were read.
    Data(usize),
    /// The read failed so.
    Failed(String),
    /// Nothing came within the time allowed.
    TimedOut,
}

/// What becomes of a peer once the connection to it stands: the status that
/// it gets in the peers table, and whether the node keeps the connection.
#[derive(Debug, PartialEq, Eq)]
pub struct Admission {
    pub status: PeerStatus,
    pub outcome: Result<(), SeminarNodeError>,
}

/// The part of the handshake that a peer has done: it must send both a
/// `version` and a `verack`, in any order, with other messages in between.
#[derive(Debug, Clone, Copy, PartialEq, Eq)]
pub struct HandshakeProgress {
    pub received_version: bool,
    pub received_verack: bool,
}

impl HandshakeProgress {
    /// Nothing received yet.
    pub fn new() -> (r: HandshakeProgress)
        ensures
            !r.received_version,
            !r.received_verack,
    {
        HandshakeProgress { received_version: false, received_verack: false }
    }

    /// Whether both messages have come.
    pub fn is_complete(&self) -> (r: bool)
        ensures
            r == (self.received_version && self.received_verack),
    {
        self.received_version && self.received_verack
    }

    /// Takes note of a received message.
    pub fn observe(&mut self, msg: &Incoming)
        ensures
            final(self).received_version == (old(self).received_version || *msg is Version),
            final(self).received_verack == (old(self).received_verack || *msg is Verack),
    {
        match msg {
            Incoming::Version => {
                self.received_version = true;
            },
            Incoming::Verack => {
                self.received_verack = true;
            },
            _ => {},
        }
    }
}

/// The progress after observing the messages `msgs`, one after the other.
pub open spec fn observe_all(p: HandshakeProgress, msgs: Seq<Incoming>) -> HandshakeProgress
    decreases msgs.len(),
{
    if msgs.len() == 0 {
        p
    } else {
        observe_all(
            HandshakeProgress {
                received_version: p.received_version || msgs[0] is Version,
                received_verack: p.received_verack || msgs[0] is Verack,
            },
            msgs.drop_first(),
        )
    }
}

/// From the start, a handshake is complete after a run of messages exactly
/// when the run holds a `version` and a `verack`, in either order and with
/// anything in between.
pub proof fn lemma_handshake_complete_iff(msgs: Seq<Incoming>)
    ensures
        ({
            let p = observe_all(HandshakeProgress { received_version: false, received_verack: false }, msgs);
            p.received_version && p.received_verack
        }) <==> (exists|i: int| 0 <= i < msgs.len() && #[trigger] msgs[i] is Version)
            && (exists|j: int| 0 <= j < msgs.len() && #[trigger] msgs[j] is Verack),
{
    lemma_observe_all(HandshakeProgress { received_version: false, received_verack: false }, msgs);
}

proof fn lemma_observe_all(p: HandshakeProgress, msgs: Seq<Incoming>)
    ensures
        observe_all(p, msgs).received_version == (p.received_version
            || exists|i: int| 0 <= i < msgs.len() && #[trigger] msgs[i] is Version),
        observe_all(p, msgs).received_verack == (p.received_verack
            || exists|j: int| 0 <= j < msgs.len() && #[trigger] msgs[j] is Verack),
    decreases msgs.len(),
{
    if msgs.len() > 0 {
        let q = HandshakeProgress {
            received_version: p.received_version || msgs[0] is Version,
            received_verack: p.received_verack || msgs[0] is Verack,
        };
        let rest = msgs.drop_first();
        lemma_observe_all(q, rest);
        assert forall|i: int| 0 <= i < rest.len() implies rest[i] == msgs[i + 1] by {}
        if exists|i: int| 0 <= i < msgs.len() && #[trigger] msgs[i] is Version {
            let i = choose|i: int| 0 <= i < msgs.len() && #[trigger] msgs[i] is Version;
            if i > 0 {
                assert(rest[i - 1] is Version);
            }
        }
        if exists|j: int| 0 <= j < msgs.len() && #[trigger] msgs[j] is Verack {
            let j = choose|j: int| 0 <= j < msgs.len() && #[trigger] msgs[j] is Verack;
            if j > 0 {
                assert(rest[j - 1] is Verack);
            }
        }
        if exists|i: int| 0 <= i < rest.len() && #[trigger] rest[i] is Version {
            let i = choose|i: int| 0 <= i < rest.len() && #[trigger] rest[i] is Version;
            assert(msgs[i + 1] is Version);
        }
        if exists|j: int| 0 <= j < rest.len() && #[trigger] rest[j] is Verack {
            let j = choose|j: int| 0 <= j < rest.len() && #[trigger] rest[j] is Verack;
            assert(msgs[j + 1] is Verack);
        }
    }
}

/// A worker that gives back the peer it took leaves the addresses in use as
/// it found them: what `claim_peer` adds, `InUsePeers::remove` takes away.
pub proof fn lemma_claim_then_release(before: Set<Seq<char>>, ip: Seq<char>)
    requires
        !before.contains(ip),
    ensures
        before.insert(ip).remove(ip) == before,
{
    assert(before.insert(ip).remove(ip) =~= before);
}

/// How many of `peers` are active.
pub open spec fn active_count(peers: Seq<Peer>) -> nat
    decreases peers.len(),
{
    if peers.len() == 0 {
        0
    } else {
        active_count(peers.drop_last()) + if peers.last().status == PeerStatus::Active { 1nat } else { 0nat }
    }
}

/// A peer is a candidate only while it waits for a connection and its
/// address is not in use; where no peer waits, there is no candidate.
pub proof fn lemma_only_awaiting_peers_are_candidates(peers: Seq<Peer>, in_use: Set<Seq<char>>)
    ensures
        forall|p: Peer| #[trigger] is_candidate(p, in_use) <==> (p.status == PeerStatus::Awaiting && !in_use.contains(p.ip@)),
        (forall|i: int| 0 <= i < peers.len() ==> (#[trigger] peers[i]).status != PeerStatus::Awaiting)
            ==> !has_candidate(peers, in_use),
        (exists|i: int| 0 <= i < peers.len() && (#[trigger] peers[i]).status == PeerStatus::Awaiting
            && !in_use.contains(peers[i].ip@)) ==> has_candidate(peers, in_use),
{
    if exists|i: int| 0 <= i < peers.len() && (#[trigger] peers[i]).status == PeerStatus::Awaiting
        && !in_use.contains(peers[i].ip@) {
        let i = choose|i: int| 0 <= i < peers.len() && (#[trigger] peers[i]).status == PeerStatus::Awaiting
            && !in_use.contains(peers[i].ip@);
        assert(is_candidate(peers[i], in_use));
    }
}

/// The number of active peers is the number of peers whose status is
/// `Active`: peers of any other status never count; appending a peer adds
/// one exactly when it is active.
pub proof fn lemma_active_count_counts_active(peers: Seq<Peer>)
    ensures
        active_count(peers) == peers.filter(|p: Peer| p.status == PeerStatus::Active).len(),
        active_count(peers) <= peers.len(),
        (forall|i: int| 0 <= i < peers.len() ==> (#[trigger] peers[i]).status != PeerStatus::Active) ==> active_count(peers) == 0,
        (forall|i: int| 0 <= i < peers.len() ==> (#[trigger] peers[i]).status == PeerStatus::Active) ==> active_count(peers) == peers.len(),
        forall|p: Peer| #[trigger] active_count(peers.push(p)) == active_count(peers) + (if p.status == PeerStatus::Active { 1int } else { 0int }),
    decreases peers.len(),
{
    reveal(Seq::filter);
    assert forall|p: Peer| #[trigger] active_count(peers.push(p)) == active_count(peers) + (if p.status == PeerStatus::Active { 1int } else { 0int }) by {
        assert(peers.push(p).drop_last() =~= peers);
    }
    if peers.len() > 0 {
        let pre = peers.drop_last();
        lemma_active_count_counts_active(pre);
        assert forall|i: int| 0 <= i < pre.len() implies pre[i] == peers[i] by {}
        if forall|i: int| 0 <= i < peers.len() ==> (#[trigger] peers[i]).status != PeerStatus::Active {
            assert(peers[peers.len() - 1].status != PeerStatus::Active);
        }
        if forall|i: int| 0 <= i < peers.len() ==> (#[trigger] peers[i]).status == PeerStatus::Active {
            assert(peers[peers.len() - 1].status == PeerStatus::Active);
        }
    }
}

/// The `version` message that a node sends carries the node's own
/// settings: its version, its relay flag, its user agent, its own address
/// as sender and its start height, with no services, nonce 0, the peer's
/// address as receiver and the time of sending.
pub proof fn lemma_version_fields(node: SeminarNode, receiver: NetAddress, now: i64)
    ensures
        version_fields_of(node, receiver, now).relay == node.relay,
        version_fields_of(node, receiver, now).version == node.version,
        version_fields_of(node, receiver, now).user_agent == node.user_agent,
        version_fields_of(node, receiver, now).sender == node.addr_trans,
        version_fields_of(node, receiver, now).receiver == receiver,
        version_fields_of(node, receiver, now).timestamp == now,
        version_fields_of(node, receiver, now).start_height == node.start_height,
        version_fields_of(node, receiver, now).nonce == 0,
        version_fields_of(node, receiver, now).services == NO_SERVICES,
{
}

/// The node's own settings: what it announces to its peers, where its peers
/// table lives and how many peers it connects to at once.
#[derive(Debug, Clone)]
pub struct SeminarNode {
    /// The protocol version announced in `version` messages.
    pub version: u32,
    /// The address of the node itself as it announces it.
    pub addr_trans: NetAddress,
    /// The magic bytes of the network that the node takes part in.
    pub magic: [u8; 4],
    /// The height of the best chain that the node announces.
    pub start_height: i32,
    /// Whether peers should relay transactions to the node.
    pub relay: bool,
    /// The user agent announced in `version` messages.
    pub user_agent: String,
    /// The directory that holds the peers table.
    pub peers_db_path: String,
    /// How many connections the node has made.
    pub peer_count: u32,
    /// The most peers that the node connects to at once.
    pub max_peers: u32,
}

/// The user agent that both forms of the node announce, following BIP 14.
pub open spec fn user_agent_text() -> Seq<char> {
    "RustSeminar:0.0.1/rust:(1.87.0-nightly-3f5502370)/"@
}

/// The loopback address `127.0.0.1`.
pub open spec fn localhost() -> Seq<u8> {
    seq![127u8, 0u8, 0u8, 1u8]
}

/// The `version` message that `node` sends to the peer at `receiver` at time `now`.
pub open spec fn version_fields_of(node: SeminarNode, receiver: NetAddress, now: i64) -> VersionFields {
    VersionFields {
        version: node.version,
        services: NO_SERVICES,
        timestamp: now,
        receiver: receiver,
        sender: node.addr_trans,
        nonce: 0,
        user_agent: node.user_agent,
        start_height: node.start_height,
        relay: node.relay,
    }
}

impl SeminarNode {
    /// The settings of a node on the Bitcoin main network that announces
    /// itself at `127.0.0.1:8333`, has made no connection yet, and keeps its
    /// peers table under `peers_db_path`.
    pub fn configure(max_peers: u32, relay: bool, peers_db_path: String) -> (r: SeminarNode)
        ensures
            r.version == PROTOCOL_VERSION,
            r.addr_trans.segments@ == ipv4_mapped(localhost()),
            r.addr_trans.port == DEFAULT_PORT,
            r.addr_trans.services == NO_SERVICES,
            r.magic@ == mainnet_magic_bytes(),
            r.start_height == 0,
            r.relay == relay,
            r.user_agent@ == user_agent_text(),
            r.peers_db_path == peers_db_path,
            r.peer_count == 0,
            r.max_peers == max_peers,
    {
        let me: [u8; 4] = [127, 0, 0, 1];
        assert(me@ =~= localhost());
        let addr_trans = NetAddress { services: NO_SERVICES, segments: mapped_segments(&me), port: DEFAULT_PORT };
        SeminarNode {
            version: PROTOCOL_VERSION,
            addr_trans,
            magic: mainnet_magic(),
            start_height: 0,
            relay,
            user_agent: "RustSeminar:0.0.1/rust:(1.87.0-nightly-3f5502370)/".to_owned(),
            peers_db_path,
            peer_count: 0,
            max_peers,
        }
    }

    /// What registering a peer in the table comes to, at start-up or from an
    /// `addr` message: a peer that is known already is no failure, every
    /// other failure stands.
    pub fn seed_registration(registered: Result<u32, SeminarNodeError>) -> (r: Result<(), SeminarNodeError>)
        ensures
            match registered {
                Ok(_) => r is Ok,
                Err(SeminarNodeError::PeerAlreadyExists(_, _)) => r is Ok,
                Err(e) => r == Err::<(), SeminarNodeError>(e),
            },
    {
        match registered {
            Ok(_) => Ok(()),
            Err(SeminarNodeError::PeerAlreadyExists(_, _)) => Ok(()),
            Err(e) => Err(e),
        }
    }

    /// How many workers to run when the peers table holds `known` peers: as
    /// many as there are peers, but no more than `max_peers`; none at all is
    /// a failure.
    pub fn max_connections(&self, known: u32) -> (r: Result<u32, SeminarNodeError>)
        ensures
            known == 0 ==> r == Err::<u32, SeminarNodeError>(SeminarNodeError::NoPeersAvailable),
            known > 0 ==> r == Ok::<u32, SeminarNodeError>(
                if known < self.max_peers { known } else { self.max_peers },
            ),
    {
        if known == 0 {
            return Err(SeminarNodeError::NoPeersAvailable);
        }
        if known < self.max_peers {
            Ok(known)
        } else {
            Ok(self.max_peers)
        }
    }

    /// Picks, at random, a peer of `all_peers` that waits for a connection and
    /// whose address is not in use.
    pub fn choose_random_peer(all_peers: &Vec<Peer>, in_use: &InUsePeers) -> (r: Result<Peer, SeminarNodeError>)
        ensures
            r is Ok <==> has_candidate(all_peers@, in_use.ip_set()),
            r matches Ok(p) ==> all_peers@.contains(p) && is_candidate(p, in_use.ip_set()),
            r is Err ==> r == Err::<Peer, SeminarNodeError>(SeminarNodeError::NoPeersFound),
            r matches Ok(p) ==> p.status == PeerStatus::Awaiting && !in_use.ip_set().contains(p.ip@),
            (forall|i: int| 0 <= i < all_peers@.len() ==> (#[trigger] all_peers@[i]).status != PeerStatus::Awaiting)
                ==> r == Err::<Peer, SeminarNodeError>(SeminarNodeError::NoPeersFound),
    {
        proof {
            lemma_only_awaiting_peers_are_candidates(all_peers@, in_use.ip_set());
        }
        if all_peers.len() == 0 {
            return Err(SeminarNodeError::NoPeersFound);
        }
        let mut candidates: Vec<usize> = Vec::new();
        let mut i: usize = 0;
        while i < all_peers.len()
            invariant
                i <= all_peers@.len(),
                forall|k: int| 0 <= k < candidates@.len() ==> (#[trigger] candidates@[k]) < all_peers@.len()
                    && is_candidate(all_peers@[candidates@[k] as int], in_use.ip_set()),
                forall|j: int| 0 <= j < i && is_candidate(#[trigger] all_peers@[j], in_use.ip_set())
                    ==> candidates@.contains(j as usize),
            decreases all_peers@.len() - i,
        {
            let p = &all_peers[i];
            let ghost before = candidates@;
            if p.status == PeerStatus::Awaiting && !in_use.contains(&p.ip) {
                candidates.push(i);
                assert(candidates@[before.len() as int] == i);
            }
            assert forall|j: int| 0 <= j < i + 1 && is_candidate(#[trigger] all_peers@[j], in_use.ip_set())
                implies candidates@.contains(j as usize) by {
                if j < i {
                    let k = choose|k: int| 0 <= k < before.len() && before[k] == j as usize;
                    assert(candidates@[k] == j as usize);
                }
            }
            i = i + 1;
        }
        match choose_index(candidates.len()) {
            Some(k) => {
                let p = all_peers[candidates[k]].copy();
                assert(all_peers@[candidates@[k as int] as int] == p);
                Ok(p)
            },
            None => {
                assert(!has_candidate(all_peers@, in_use.ip_set())) by {
                    if has_candidate(all_peers@, in_use.ip_set()) {
                        let j = choose|j: int| 0 <= j < all_peers@.len() && is_candidate(#[trigger] all_peers@[j], in_use.ip_set());
                        assert(candidates@.contains(j as usize));
                    }
                }
                Err(SeminarNodeError::NoPeersFound)
            },
        }
    }

    /// Whether `max_peers` addresses, or more, are in use.
    pub fn slots_full(&self, in_use: &InUsePeers) -> (r: bool)
        requires
            in_use.wf(),
        ensures
            r == (in_use.ip_set().len() >= self.max_peers),
    {
        in_use.len() >= self.max_peers as usize
    }

    /// Takes a peer for a worker: refused while `max_peers` addresses are in
    /// use, or where no peer is a candidate; otherwise a candidate, whose
    /// address is then in use.
    pub fn claim_peer(&self, in_use: &mut InUsePeers, all_peers: &Vec<Peer>) -> (r: Result<Peer, ClaimRefusal>)
        requires
            old(in_use).wf(),
        ensures
            final(in_use).wf(),
            old(in_use).ip_set().len() >= self.max_peers ==> r == Err::<Peer, ClaimRefusal>(ClaimRefusal::SlotsFull),
            old(in_use).ip_set().len() < self.max_peers ==> (r is Ok <==> has_candidate(all_peers@, old(in_use).ip_set())),
            r == Err::<Peer, ClaimRefusal>(ClaimRefusal::NoCandidate) ==> old(in_use).ip_set().len() < self.max_peers,
            r matches Ok(p) ==> all_peers@.contains(p) && is_candidate(p, old(in_use).ip_set())
                && final(in_use).ip_set() == old(in_use).ip_set().insert(p.ip@),
            r is Err ==> final(in_use).ip_set() == old(in_use).ip_set(),
            old(in_use).ip_set().len() < self.max_peers && !has_candidate(all_peers@, old(in_use).ip_set())
                ==> r == Err::<Peer, ClaimRefusal>(ClaimRefusal::NoCandidate),
            old(in_use).ip_set().len() <= self.max_peers ==> final(in_use).ip_set().len() <= self.max_peers,
            r matches Ok(p) ==> p.status == PeerStatus::Awaiting && !old(in_use).ip_set().contains(p.ip@),
            (forall|i: int| 0 <= i < all_peers@.len() ==> (#[trigger] all_peers@[i]).status != PeerStatus::Awaiting)
                ==> r is Err,
    {
        proof {
            in_use.lemma_finite();
            lemma_only_awaiting_peers_are_candidates(all_peers@, in_use.ip_set());
        }
        if in_use.len() >= self.max_peers as usize {
            return Err(ClaimRefusal::SlotsFull);
        }
        match Self::choose_random_peer(all_peers, in_use) {
            Ok(p) => {
                in_use.insert(p.ip.clone());
                Ok(p)
            },
            Err(_) => Err(ClaimRefusal::NoCandidate),
        }
    }

    /// The address to connect to for `peer`: its IPv4 address in mapped form
    /// and its port; fails where the peer's address is no dotted-quad text.
    pub fn create_socket_addr(peer: &Peer) -> (r: Result<NetAddress, SeminarNodeError>)
        ensures
            match ipv4_of_text(peer.ip@) {
                Some(ip) => r matches Ok(a) && a.segments@ == ipv4_mapped(ip) && a.port == peer.port
                    && a.services == NO_SERVICES,
                None => r == Err::<NetAddress, SeminarNodeError>(SeminarNodeError::MalformedString),
            },
    {
        match parse_ipv4(peer.ip.as_str()) {
            Some(ip) => Ok(NetAddress { services: NO_SERVICES, segments: mapped_segments(&ip), port: peer.port }),
            None => Err(SeminarNodeError::MalformedString),
        }
    }

    /// How many peers of `peers` are active.
    pub fn count_active(peers: &Vec<Peer>) -> (r: usize)
        ensures
            r == active_count(peers@),
            r == peers@.filter(|p: Peer| p.status == PeerStatus::Active).len(),
            r <= peers@.len(),
    {
        proof {
            lemma_active_count_counts_active(peers@);
        }
        let mut n: usize = 0;
        let mut i: usize = 0;
        while i < peers.len()
            invariant
                i <= peers@.len(),
                n == active_count(peers@.take(i as int)),
                n <= i,
            decreases peers@.len() - i,
        {
            assert(peers@.take(i + 1).drop_last() =~= peers@.take(i as int));
            if peers[i].status == PeerStatus::Active {
                n = n + 1;
            }
            i = i + 1;
        }
        assert(peers@.take(peers@.len() as int) =~= peers@);
        n
    }

    /// What becomes of a peer once the connection to it stands, given the
    /// peers of the table: while fewer than `max_peers` of them are active,
    /// it becomes active and the node keeps the connection; otherwise it is
    /// deactivated and the connection is dropped.
    pub fn admit_connection(&self, known: &Vec<Peer>) -> (r: Admission)
        ensures
            active_count(known@) >= self.max_peers ==> r == (Admission {
                status: PeerStatus::Deactivated,
                outcome: Err(SeminarNodeError::MaxPeersReached),
            }),
            active_count(known@) < self.max_peers ==> r == (Admission { status: PeerStatus::Active, outcome: Ok(()) }),
    {
        let active = Self::count_active(known);
        if active >= self.max_peers as usize {
            Admission { status: PeerStatus::Deactivated, outcome: Err(SeminarNodeError::MaxPeersReached) }
        } else {
            Admission { status: PeerStatus::Active, outcome: Ok(()) }
        }
    }

    /// The `version` message that opens the handshake with the peer at
    /// `receiver`, sent at time `now` (seconds since the Unix epoch).
    pub fn version_message(&self, receiver: NetAddress, now: i64) -> (r: Outgoing)
        ensures
            r == Outgoing::Version(version_fields_of(*self, receiver, now)),
            r matches Outgoing::Version(v) && v.relay == self.relay && v.version == self.version
                && v.user_agent == self.user_agent && v.sender == self.addr_trans && v.receiver == receiver
                && v.timestamp == now && v.start_height == self.start_height && v.nonce == 0
                && v.services == NO_SERVICES,
    {
        proof {
            lemma_version_fields(*self, receiver, now);
        }
        Outgoing::Version(VersionFields {
            version: self.version,
            services: NO_SERVICES,
            timestamp: now,
            receiver,
            sender: self.addr_trans,
            nonce: 0,
            user_agent: self.user_agent.clone(),
            start_height: self.start_height,
            relay: self.relay,
        })
    }

    /// The bytes that go over the wire for `msg`.
    pub fn encode(&self, msg: &Outgoing) -> (r: Vec<u8>)
        ensures
            r@ == wire_encoding(self.magic@, *msg),
    {
        encode_message(&self.magic, msg)
    }

    /// What the node does with a received message: it stores the addresses
    /// of an `addr` message, answers a `ping` with a `pong` of the same
    /// nonce, and only notes every other message.
    pub fn react(msg: Incoming) -> (r: Reaction)
        ensures
            match msg {
                Incoming::Addr(entries) => r == Reaction::StoreAddresses(entries),
                Incoming::Ping(n) => r == Reaction::Reply(Outgoing::Pong(n)),
                _ => r == Reaction::Nothing,
            },
    {
        match msg {
            Incoming::Addr(entries) => Reaction::StoreAddresses(entries),
            Incoming::Ping(n) => Reaction::Reply(Outgoing::Pong(n)),
            _ => Reaction::Nothing,
        }
    }

    /// Whether the addresses of an `addr` message are stored while the peers
    /// table holds `known` peers: not once it holds more than a hundred.
    pub fn accepts_addresses(known: u32) -> (r: bool)
        ensures
            r == (known <= MAX_KNOWN_PEERS),
    {
        known <= MAX_KNOWN_PEERS
    }

    /// What follows the read that checks that the peer is still there: some
    /// data calls for a `ping` with nonce 0, no data means the peer closed
    /// the connection, and a failed or late read ends it.
    pub fn keepalive(read: ReadOutcome) -> (r: Result<Outgoing, SeminarNodeError>)
        ensures
            match read {
                ReadOutcome::Data(n) => if n == 0 {
                    r == Err::<Outgoing, SeminarNodeError>(SeminarNodeError::ConnectionClosed)
                } else {
                    r == Ok::<Outgoing, SeminarNodeError>(Outgoing::Ping(0))
                },
                ReadOutcome::Failed(e) => r == Err::<Outgoing, SeminarNodeError>(SeminarNodeError::ConnectionError(e)),
                ReadOutcome::TimedOut => r == Err::<Outgoing, SeminarNodeError>(SeminarNodeError::TimeoutError),
            },
    {
        match read {
            ReadOutcome::Data(n) => if n == 0 {
                Err(SeminarNodeError::ConnectionClosed)
            } else {
                Ok(Outgoing::Ping(0))
            },
            ReadOutcome::Failed(e) => Err(SeminarNodeError::ConnectionError(e)),
            ReadOutcome::TimedOut => Err(SeminarNodeError::TimeoutError),
        }
    }

    /// The message in the bytes that one read brought: none at all is a
    /// failure of its own, bytes that are no whole message a decoding failure.
    pub fn decode_received(bytes: &[u8]) -> (r: Result<(String, Incoming), SeminarNodeError>)
        ensures
            bytes@.len() == 0 ==> r == Err::<(String, Incoming), SeminarNodeError>(SeminarNodeError::ZeroBytesRecvError),
            bytes@.len() > 0 ==> match wire_decoding(bytes@) {
                Some((c, m)) => r matches Ok((rc, rm)) && rc@ == c && rm == m,
                None => r matches Err(SeminarNodeError::DecodeError(_)),
            },
    {
        if bytes.len() == 0 {
            return Err(SeminarNodeError::ZeroBytesRecvError);
        }
        match decode_message(bytes) {
            Ok(pair) => Ok(pair),
            Err(e) => Err(SeminarNodeError::DecodeError(decode_error_text(&e))),
        }
    }
    /// The peers-table rows for the entries of an `addr` message, in order:
    /// each entry's address as text (the dotted quad where it embeds an
    /// IPv4 address, else its IPv6 text), with its port.
    pub fn addr_rows(entries: &Vec<AddrEntry>) -> (r: Vec<(String, u16)>)
        ensures
            r@.len() == entries@.len(),
            forall|i: int| 0 <= i < r@.len() ==> (#[trigger] r@[i]).0@ == peer_ip_text(entries@[i].segments@)
                && r@[i].1 == entries@[i].port,
    {
        let mut rows: Vec<(String, u16)> = Vec::new();
        let mut i: usize = 0;
        while i < entries.len()
            invariant
                i <= entries@.len(),
                rows@.len() == i,
                forall|k: int| 0 <= k < i ==> (#[trigger] rows@[k]).0@ == peer_ip_text(entries@[k].segments@)
                    && rows@[k].1 == entries@[k].port,
            decreases entries@.len() - i,
        {
            let e = &entries[i];
            rows.push((peer_ip_text_of(&e.segments), e.port));
            i = i + 1;
        }
        rows
    }
    /// What a worker does after an attempt with the peer at `ip`, which it
    /// took: a peer whose connection was handed on stays in use and the
    /// worker goes on; any failure gives the peer back, and the worker then
    /// waits, or stops where connections can no longer be handed on.
    pub fn after_attempt(in_use: &mut InUsePeers, ip: &String, outcome: AttemptOutcome) -> (r: WorkerStep)
        requires
            old(in_use).wf(),
        ensures
            final(in_use).wf(),
            outcome == AttemptOutcome::Delivered ==> r == WorkerStep::Next
                && final(in_use).ip_set() == old(in_use).ip_set(),
            outcome != AttemptOutcome::Delivered ==> final(in_use).ip_set() == old(in_use).ip_set().remove(ip@),
            outcome == AttemptOutcome::DeliveryFailed ==> r == WorkerStep::Stop,
            (outcome == AttemptOutcome::NoAddress || outcome == AttemptOutcome::ConnectFailed) ==> r == WorkerStep::Retry,
    {
        match outcome {
            AttemptOutcome::Delivered => WorkerStep::Next,
            AttemptOutcome::DeliveryFailed => {
                in_use.remove(ip);
                WorkerStep::Stop
            },
            _ => {
                in_use.remove(ip);
                WorkerStep::Retry
            },
        }
    }
}

} // verus!
