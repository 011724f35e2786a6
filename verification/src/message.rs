use vstd::prelude::*;
use bitcoin::consensus::encode::{Decodable, Encodable};
use bitcoin::p2p::address::Address;
use bitcoin::p2p::message::{NetworkMessage, RawNetworkMessage};
use bitcoin::p2p::message_network::VersionMessage;
use bitcoin::p2p::Magic;
use Outgoing::{GetAddr, Ping, Pong, Verack, Version};

verus! {

/// The service bits of a node that offers no services.
pub const NO_SERVICES: u64 = 0;

/// An address as the network messages carry it: the services offered
/// there, an IPv6 address (eight 16-bit groups, IPv4 addresses in their
/// mapped form) and a port.
#[derive(Debug, Clone, Copy, PartialEq, Eq)]
pub struct NetAddress {
    pub services: u64,
    pub segments: [u16; 8],
    pub port: u16,
}

/// One entry of an `addr` message: when the peer was last seen, and where.
#[derive(Debug, Clone, Copy, PartialEq, Eq)]
pub struct AddrEntry {
    pub time: u32,
    pub segments: [u16; 8],
    pub port: u16,
}

/// The fields of a `version` message.
#[derive(Debug, Clone, PartialEq, Eq)]
pub struct VersionFields {
    pub version: u32,
    pub services: u64,
    pub timestamp: i64,
    pub receiver: NetAddress,
    pub sender: NetAddress,
    pub nonce: u64,
    pub user_agent: String,
    pub start_height: i32,
    pub relay: bool,
}

/// The messages that the node sends.
#[derive(Debug, Clone, PartialEq, Eq)]
pub enum Outgoing {
    Version(VersionFields),
    Verack,
    GetAddr,
    Ping(u64),
    Pong(u64),
}

/// The messages that the node tells apart when it receives them; every
/// other message is `Other`.
#[derive(Debug, Clone, PartialEq, Eq)]
pub enum Incoming {
    Version,
    Verack,
    Addr(Vec<AddrEntry>),
    Ping(u64),
    SendCmpct,
    FeeFilter,
    Other,
}

#[verifier::external_type_specification]
#[verifier::external_body]
pub struct ExDecodeError(bitcoin::consensus::encode::Error);

/// The bytes of a whole network message (header and payload) for the
/// network with the given magic bytes.
pub uninterp spec fn wire_encoding(magic: Seq<u8>, msg: Outgoing) -> Seq<u8>;

/// The command text and the message that a byte string decodes to, or
/// `None` where it does not decode to a whole network message.
pub uninterp spec fn wire_decoding(bytes: Seq<u8>) -> Option<(Seq<char>, Incoming)>;

/// The magic bytes of the Bitcoin main network.
pub open spec fn mainnet_magic_bytes() -> Seq<u8> {
    seq![0xf9u8, 0xbeu8, 0xb4u8, 0xd9u8]
}

/// `Network::Bitcoin.magic()` of the `bitcoin` crate, as bytes: the crate
/// defines them as `F9 BE B4 D9`.
#[verifier::external_body]
pub fn mainnet_magic() -> (r: [u8; 4])
    ensures
        r@ == mainnet_magic_bytes(),
{
    bitcoin::network::Network::Bitcoin.magic().to_bytes()
}

/// `RawNetworkMessage::new` and `consensus_encode` of the `bitcoin` crate:
/// the bytes of `msg` framed for the network of `magic`. Writing into a
/// vector never fails, so the result is always the whole encoding.
#[verifier::external_body]
pub fn encode_message(magic: &[u8; 4], msg: &Outgoing) -> (r: Vec<u8>)
    ensures
        r@ == wire_encoding(magic@, *msg),
{
    let addr = |a: &NetAddress| Address { services: a.services.into(), address: a.segments, port: a.port };
    let mut buf = vec![];
    let _ = RawNetworkMessage::new(Magic::from_bytes(*magic), match msg {
        Version(v) => NetworkMessage::Version(VersionMessage {
            version: v.version, services: v.services.into(), timestamp: v.timestamp,
            receiver: addr(&v.receiver), sender: addr(&v.sender),
            nonce: v.nonce, user_agent: v.user_agent.clone(), start_height: v.start_height, relay: v.relay }),
        Verack => NetworkMessage::Verack,
        GetAddr => NetworkMessage::GetAddr,
        Ping(n) => NetworkMessage::Ping(*n),
        Pong(n) => NetworkMessage::Pong(*n),
    }).consensus_encode(&mut buf);
    buf
}

/// `RawNetworkMessage::consensus_decode` of the `bitcoin` crate, with the
/// message's `cmd()` text and its kind: succeeds exactly where the bytes
/// decode to a whole network message.
#[verifier::external_body]
pub fn decode_message(bytes: &[u8]) -> (r: Result<(String, Incoming), bitcoin::consensus::encode::Error>)
    ensures
        match wire_decoding(bytes@) {
            Some((c, m)) => r matches Ok((rc, rm)) && rc@ == c && rm == m,
            None => r is Err,
        },
{
    let raw = RawNetworkMessage::consensus_decode(&mut &bytes[..])?;
    let msg = match raw.payload() {
        NetworkMessage::Version(_) => Incoming::Version,
        NetworkMessage::Verack => Incoming::Verack,
        NetworkMessage::Addr(a) => Incoming::Addr(a.iter().map(|(t, x)| AddrEntry { time: *t, segments: x.address, port: x.port }).collect()),
        NetworkMessage::Ping(n) => Incoming::Ping(*n),
        NetworkMessage::SendCmpct(_) => Incoming::SendCmpct,
        NetworkMessage::FeeFilter(_) => Incoming::FeeFilter,
        _ => Incoming::Other,
    };
    Ok((raw.cmd().to_string(), msg))
}

/// The `Display` text of a decoding error of the `bitcoin` crate; nothing is
/// stated of the text.
#[verifier::external_body]
pub fn decode_error_text(e: &bitcoin::consensus::encode::Error) -> String {
    e.to_string()
}

} // verus!
