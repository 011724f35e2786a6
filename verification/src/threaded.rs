//! The first form of the node: one initial peer given by its address, one
//! thread per connected peer, a strict handshake, and a fixed bound on the
//! number of connections.

use vstd::prelude::*;

use crate::address::{embedded_ipv4, ipv4_mapped, ipv4_of_text, mapped_segments, parse_ipv4, to_ipv4};
use crate::error::SeminarNodeError;
use crate::message::{
    encode_message, mainnet_magic, mainnet_magic_bytes, wire_encoding, AddrEntry, Incoming, NetAddress, Outgoing,
    VersionFields, NO_SERVICES,
};
use crate::node::user_agent_text;

verus! {

/// The protocol version that this form of the node announces.
pub const THREADED_PROTOCOL_VERSION: u32 = 70015;

/// The length of the header of a network message, in bytes.
pub const HEADER_LEN: usize = 24;

/// The settings of a node that starts from one peer.
#[derive(Debug, Clone)]
pub struct SeminarNode {
    /// Where the first peer is: its IPv4 address in mapped form, and port.
    pub socket: NetAddress,
    /// The protocol version announced in `version` messages.
    pub version: u32,
    /// The address of the first peer as the node announces it.
    pub addr_recv: NetAddress,
    /// The address of the node itself as it announces it.
    pub addr_trans: NetAddress,
    /// The magic bytes of the network that the node takes part in.
    pub magic: [u8; 4],
    /// The height of the best chain that the node announces.
    pub start_height: i32,
    /// Whether peers should relay transactions to the node.
    pub relay: bool,
    /// The user agent announced in `version` messages.
    pub user_agent: String,
    /// The most peers that the node keeps at once.
    pub max_peers: u16,
}

impl SeminarNode {
    /// The settings of a node whose first peer is at `host:port`; fails where
    /// `host` is no dotted-quad IPv4 address.
    pub fn create(host: String, port: u16, max_peers: u16, relay: bool) -> (r: Result<SeminarNode, SeminarNodeError>)
        ensures
            match ipv4_of_text(host@) {
                None => r == Err::<SeminarNode, SeminarNodeError>(SeminarNodeError::MalformedString),
                Some(ip) => r matches Ok(n) && {
                    &&& n.socket.segments@ == ipv4_mapped(ip) && n.socket.port == port
                    &&& n.socket.services == NO_SERVICES
                    &&& n.addr_trans.services == NO_SERVICES
                    &&& n.addr_recv == n.socket
                    &&& n.addr_trans.segments@ == ipv4_mapped(seq![127u8, 0u8, 0u8, 1u8])
                    &&& n.addr_trans.port == 8333
                    &&& n.version == THREADED_PROTOCOL_VERSION
                    &&& n.magic@ == mainnet_magic_bytes()
                    &&& n.start_height == 0
                    &&& n.relay == relay
                    &&& n.user_agent@ == user_agent_text()
                    &&& n.max_peers == max_peers
                },
            },
    {
        let me: [u8; 4] = [127, 0, 0, 1];
        assert(me@ =~= seq![127u8, 0u8, 0u8, 1u8]);
        let ip = match parse_ipv4(host.as_str()) {
            Some(ip) => ip,
            None => return Err(SeminarNodeError::MalformedString),
        };
        let socket = NetAddress { services: NO_SERVICES, segments: mapped_segments(&ip), port };
        Ok(SeminarNode {
            socket,
            version: THREADED_PROTOCOL_VERSION,
            addr_recv: socket,
            addr_trans: NetAddress { services: NO_SERVICES, segments: mapped_segments(&me), port: 8333 },
            magic: mainnet_magic(),
            start_height: 0,
            relay,
            user_agent: "RustSeminar:0.0.1/rust:(1.87.0-nightly-3f5502370)/".to_owned(),
            max_peers,
        })
    }

    /// The `version` message that opens the handshake, sent at time `now`
    /// (seconds since the Unix epoch).
    pub fn version_message(&self, now: i64) -> (r: Outgoing)
        ensures
            r == Outgoing::Version(VersionFields {
                version: self.version,
                services: NO_SERVICES,
                timestamp: now,
                receiver: self.addr_recv,
                sender: self.addr_trans,
                nonce: 0,
                user_agent: self.user_agent,
                start_height: self.start_height,
                relay: self.relay,
            }),
    {
        Outgoing::Version(VersionFields {
            version: self.version,
            services: NO_SERVICES,
            timestamp: now,
            receiver: self.addr_recv,
            sender: self.addr_trans,
            nonce: 0,
            user_agent: self.user_agent.clone(),
            start_height: self.start_height,
            relay: self.relay,
        })
    }

    /// The bytes that go over the wire for `msg`.
    pub fn encode(&self, msg: &Outgoing) -> (r: Vec<u8>)
        ensures
            r@ == wire_encoding(self.magic@, *msg),
    {
        encode_message(&self.magic, msg)
    }
}

/// The connections that the node keeps, never more than its bound.
#[derive(Debug)]
pub struct PeerList<T> {
    peers: Vec<T>,
    max_peers: u16,
}

impl<T> PeerList<T> {
    /// The connections, in the order in which they were added.
    pub closed spec fn items(&self) -> Seq<T> {
        self.peers@
    }

    /// The bound on the number of connections.
    pub closed spec fn bound(&self) -> nat {
        self.max_peers as nat
    }

    /// The list holds no more connections than its bound.
    pub closed spec fn wf(&self) -> bool {
        self.peers@.len() <= self.max_peers
    }

    /// An empty list with the given bound.
    pub fn new(max_peers: u16) -> (r: PeerList<T>)
        ensures
            r.wf(),
            r.items() == Seq::<T>::empty(),
            r.bound() == max_peers as nat,
    {
        PeerList { peers: Vec::new(), max_peers }
    }

    /// How many connections the list holds.
    pub fn len(&self) -> (r: usize)
        ensures
            r == self.items().len(),
    {
        self.peers.len()
    }

    /// Adds a connection while there is room for it; fails, and leaves the
    /// list as it was, once the list holds `max_peers` connections.
    pub fn add(&mut self, peer: T) -> (r: Result<(), SeminarNodeError>)
        requires
            old(self).wf(),
        ensures
            final(self).wf(),
            final(self).bound() == old(self).bound(),
            old(self).items().len() < old(self).bound() ==> r is Ok && final(self).items() == old(self).items().push(peer),
            old(self).items().len() >= old(self).bound() ==> r == Err::<(), SeminarNodeError>(SeminarNodeError::MaxPeersReached)
                && final(self).items() == old(self).items(),
    {
        if self.peers.len() < self.max_peers as usize {
            self.peers.push(peer);
            Ok(())
        } else {
            Err(SeminarNodeError::MaxPeersReached)
        }
    }
}

/// However many connections are offered, a list never holds more than its bound.
pub proof fn lemma_peer_list_bounded<T>(list: PeerList<T>)
    requires
        list.wf(),
    ensures
        list.items().len() <= list.bound(),
{
}

/// Where the handshake with a peer stands: the peer's `version` comes first,
/// then its `verack` (which the node answers with its own), then any number
/// of `sendcmpct` and `ping` messages until its `feefilter`.
#[derive(Debug, Clone, Copy, PartialEq, Eq, Structural)]
pub enum HandshakeStage {
    AwaitingVersion,
    AwaitingVerack,
    AwaitingFeeFilter,
    Complete,
}

/// The stage that a message leads to, and what the node sends in answer;
/// `None` where the message is not one that the stage allows.
pub open spec fn handshake_transition(stage: HandshakeStage, msg: Incoming) -> Option<(HandshakeStage, Option<Outgoing>)> {
    match (stage, msg) {
        (HandshakeStage::AwaitingVersion, Incoming::Version) => Some((HandshakeStage::AwaitingVerack, None)),
        (HandshakeStage::AwaitingVerack, Incoming::Verack) => Some((HandshakeStage::AwaitingFeeFilter, Some(Outgoing::Verack))),
        (HandshakeStage::AwaitingFeeFilter, Incoming::SendCmpct) => Some((HandshakeStage::AwaitingFeeFilter, None)),
        (HandshakeStage::AwaitingFeeFilter, Incoming::Ping(n)) => Some((HandshakeStage::AwaitingFeeFilter, Some(Outgoing::Pong(n)))),
        (HandshakeStage::AwaitingFeeFilter, Incoming::FeeFilter) => Some((HandshakeStage::Complete, None)),
        _ => None,
    }
}

/// The stage after a run of messages from `stage`, or `None` where one of
/// them is not allowed where it comes.
pub open spec fn handshake_run(stage: HandshakeStage, msgs: Seq<Incoming>) -> Option<HandshakeStage>
    decreases msgs.len(),
{
    if msgs.len() == 0 {
        Some(stage)
    } else {
        match handshake_transition(stage, msgs[0]) {
            Some((next, _)) => handshake_run(next, msgs.drop_first()),
            None => None,
        }
    }
}

/// One step of the handshake: the stage that the message `msg` (whose
/// command is `cmd`) leads to and the message to send in answer; a message
/// that the stage does not allow fails the handshake with its command.
pub fn handshake_step(stage: HandshakeStage, cmd: String, msg: Incoming) -> (r: Result<(HandshakeStage, Option<Outgoing>), SeminarNodeError>)
    ensures
        match handshake_transition(stage, msg) {
            Some(t) => r == Ok::<(HandshakeStage, Option<Outgoing>), SeminarNodeError>(t),
            None => r == Err::<(HandshakeStage, Option<Outgoing>), SeminarNodeError>(SeminarNodeError::HandshakeError(cmd)),
        },
        stage == HandshakeStage::AwaitingFeeFilter && msg is Ping ==> r == Ok::<(HandshakeStage, Option<Outgoing>), SeminarNodeError>(
            (HandshakeStage::AwaitingFeeFilter, Some(Outgoing::Pong(msg->Ping_0))),
        ),
        r matches Ok((_, Some(Outgoing::Pong(m)))) ==> msg == Incoming::Ping(m),
{
    match (stage, msg) {
        (HandshakeStage::AwaitingVersion, Incoming::Version) => Ok((HandshakeStage::AwaitingVerack, None)),
        (HandshakeStage::AwaitingVerack, Incoming::Verack) => Ok((HandshakeStage::AwaitingFeeFilter, Some(Outgoing::Verack))),
        (HandshakeStage::AwaitingFeeFilter, Incoming::SendCmpct) => Ok((HandshakeStage::AwaitingFeeFilter, None)),
        (HandshakeStage::AwaitingFeeFilter, Incoming::Ping(n)) => Ok((HandshakeStage::AwaitingFeeFilter, Some(Outgoing::Pong(n)))),
        (HandshakeStage::AwaitingFeeFilter, Incoming::FeeFilter) => Ok((HandshakeStage::Complete, None)),
        _ => Err(SeminarNodeError::HandshakeError(cmd)),
    }
}

/// After the peer's `verack`, every `ping` is answered with a `pong` that
/// carries exactly the ping's nonce, and the handshake stays where it is;
/// and no stage ever answers with a `pong` but to a `ping` of that nonce.
pub proof fn lemma_handshake_ping_answered(stage: HandshakeStage, msg: Incoming, n: u64)
    ensures
        handshake_transition(HandshakeStage::AwaitingFeeFilter, Incoming::Ping(n))
            == Some((HandshakeStage::AwaitingFeeFilter, Some(Outgoing::Pong(n)))),
        handshake_transition(stage, msg) matches Some((_, Some(Outgoing::Pong(m)))) ==> msg == Incoming::Ping(m),
        handshake_transition(stage, msg) matches Some((_, Some(Outgoing::Verack))) ==> stage == HandshakeStage::AwaitingVerack
            && msg == Incoming::Verack,
{
}

/// A handshake completes exactly on a `version`, a `verack`, any number of
/// `sendcmpct` and `ping` messages, and a `feefilter`, in that order.
pub proof fn lemma_handshake_completes(msgs: Seq<Incoming>)
    ensures
        handshake_run(HandshakeStage::AwaitingVersion, msgs) == Some(HandshakeStage::Complete) <==> {
            &&& msgs.len() >= 3
            &&& msgs[0] is Version
            &&& msgs[1] is Verack
            &&& msgs.last() is FeeFilter
            &&& forall|i: int| 2 <= i < msgs.len() - 1 ==> (#[trigger] msgs[i] is SendCmpct || msgs[i] is Ping)
        },
{
    if msgs.len() >= 2 && msgs[0] is Version && msgs[1] is Verack {
        let one = msgs.drop_first();
        let rest = one.drop_first();
        assert(one[0] == msgs[1]);
        assert(handshake_run(HandshakeStage::AwaitingVersion, msgs) == handshake_run(HandshakeStage::AwaitingVerack, one));
        assert(handshake_run(HandshakeStage::AwaitingVerack, one) == handshake_run(HandshakeStage::AwaitingFeeFilter, rest));
        lemma_feefilter_phase(rest);
        assert forall|k: int| 0 <= k < rest.len() implies rest[k] == msgs[k + 2] by {}
        if rest.len() >= 1 {
            assert(rest.last() == msgs.last());
        }
        let rhs_msgs = forall|i: int| 2 <= i < msgs.len() - 1 ==> (#[trigger] msgs[i] is SendCmpct || msgs[i] is Ping);
        let rhs_rest = forall|i: int| 0 <= i < rest.len() - 1 ==> (#[trigger] rest[i] is SendCmpct || rest[i] is Ping);
        assert(rhs_msgs <==> rhs_rest) by {
            if rhs_rest {
                assert forall|i: int| 2 <= i < msgs.len() - 1 implies (#[trigger] msgs[i] is SendCmpct || msgs[i] is Ping) by {
                    assert(msgs[i] == rest[i - 2]);
                }
            }
            if rhs_msgs {
                assert forall|i: int| 0 <= i < rest.len() - 1 implies (#[trigger] rest[i] is SendCmpct || rest[i] is Ping) by {
                    assert(msgs[i + 2] == rest[i]);
                }
            }
        }
    } else if msgs.len() >= 1 && msgs[0] is Version {
        let one = msgs.drop_first();
        assert(handshake_run(HandshakeStage::AwaitingVersion, msgs) == handshake_run(HandshakeStage::AwaitingVerack, one));
        if msgs.len() >= 2 {
            assert(one[0] == msgs[1]);
            assert(handshake_run(HandshakeStage::AwaitingVerack, one) is None);
        } else {
            assert(handshake_run(HandshakeStage::AwaitingVerack, one) == Some(HandshakeStage::AwaitingVerack));
        }
    } else if msgs.len() >= 1 {
        assert(handshake_run(HandshakeStage::AwaitingVersion, msgs) is None);
    }
}

/// From the last stage of the handshake, a run of messages completes it
/// exactly when it is any number of `sendcmpct` and `ping` messages and then
/// a `feefilter`.
proof fn lemma_feefilter_phase(msgs: Seq<Incoming>)
    ensures
        handshake_run(HandshakeStage::AwaitingFeeFilter, msgs) == Some(HandshakeStage::Complete) <==> {
            &&& msgs.len() >= 1
            &&& msgs.last() is FeeFilter
            &&& forall|i: int| 0 <= i < msgs.len() - 1 ==> (#[trigger] msgs[i] is SendCmpct || msgs[i] is Ping)
        },
    decreases msgs.len(),
{
    if msgs.len() > 0 {
        let rest = msgs.drop_first();
        lemma_feefilter_phase(rest);
        assert forall|i: int| 0 <= i < rest.len() implies rest[i] == msgs[i + 1] by {}
        if msgs[0] is FeeFilter {
            lemma_complete_stays(rest);
            assert(handshake_run(HandshakeStage::AwaitingFeeFilter, msgs) == handshake_run(HandshakeStage::Complete, rest));
            if msgs.len() > 1 {
                assert(!(msgs[0] is SendCmpct || msgs[0] is Ping));
            } else {
                assert(msgs.last() == msgs[0]);
            }
        } else if msgs[0] is SendCmpct || msgs[0] is Ping {
            assert(handshake_run(HandshakeStage::AwaitingFeeFilter, msgs) == handshake_run(HandshakeStage::AwaitingFeeFilter, rest));
            if rest.len() == 0 {
                assert(msgs.last() == msgs[0]);
            } else {
                assert(msgs.last() == rest.last());
                let rhs_msgs = forall|i: int| 0 <= i < msgs.len() - 1 ==> (#[trigger] msgs[i] is SendCmpct || msgs[i] is Ping);
                let rhs_rest = forall|i: int| 0 <= i < rest.len() - 1 ==> (#[trigger] rest[i] is SendCmpct || rest[i] is Ping);
                assert(rhs_msgs <==> rhs_rest) by {
                    if rhs_rest {
                        assert forall|i: int| 0 <= i < msgs.len() - 1 implies (#[trigger] msgs[i] is SendCmpct || msgs[i] is Ping) by {
                            if i > 0 {
                                assert(msgs[i] == rest[i - 1]);
                            }
                        }
                    }
                    if rhs_msgs {
                        assert forall|i: int| 0 <= i < rest.len() - 1 implies (#[trigger] rest[i] is SendCmpct || rest[i] is Ping) by {
                            assert(msgs[i + 1] == rest[i]);
                        }
                    }
                }
            }
        } else {
            assert(handshake_run(HandshakeStage::AwaitingFeeFilter, msgs) is None);
            if msgs.len() == 1 {
                assert(msgs.last() == msgs[0]);
            } else {
                assert(!(msgs[0] is SendCmpct || msgs[0] is Ping));
            }
        }
    }
}

/// Once complete, the handshake admits no further message.
proof fn lemma_complete_stays(msgs: Seq<Incoming>)
    ensures
        handshake_run(HandshakeStage::Complete, msgs) == (if msgs.len() == 0 { Some(HandshakeStage::Complete) } else { None::<HandshakeStage> }),
{
}

/// Where a peer announced in an `addr` message is: its IPv4 address where the
/// announced address embeds one, else the IPv6 address; with the port.
#[derive(Debug, Clone, Copy, PartialEq, Eq)]
pub enum Endpoint {
    V4([u8; 4], u16),
    V6([u16; 8], u16),
}

/// The address to connect to for an entry of an `addr` message.
pub fn peer_endpoint(entry: &AddrEntry) -> (r: Endpoint)
    ensures
        match embedded_ipv4(entry.segments@) {
            Some(ip) => r matches Endpoint::V4(a, p) && a@ == ip && p == entry.port,
            None => r == Endpoint::V6(entry.segments, entry.port),
        },
{
    match to_ipv4(&entry.segments) {
        Some(ip) => Endpoint::V4(ip, entry.port),
        None => Endpoint::V6(entry.segments, entry.port),
    }
}

/// The length of a payload as a message header states it: the little-endian
/// number in bytes 16 to 19.
pub open spec fn payload_len_of(header: Seq<u8>) -> nat {
    header[16] as nat + header[17] as nat * 256 + header[18] as nat * 65536 + header[19] as nat * 16777216
}

/// The length of the payload that follows a message header.
pub fn payload_len(header: &[u8]) -> (r: u32)
    requires
        header@.len() >= HEADER_LEN,
    ensures
        r == payload_len_of(header@),
{
    (header[16] as u32) + (header[17] as u32) * 256 + (header[18] as u32) * 65536 + (header[19] as u32) * 16777216
}

} // verus!
