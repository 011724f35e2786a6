use vstd::prelude::*;

use crate::address::{append_dec, dec_text};

verus! {

/// What can go wrong while the node runs.
///
/// Where the failure comes from the network, the clock or the database, the
/// variant carries that failure's description.
#[derive(Debug, Clone, PartialEq, Eq)]
pub enum SeminarNodeError {
    MalformedString,
    ConnectionError(String),
    EncodeError(String),
    DecodeError(String),
    SendError(String),
    TimeError(String),
    HandshakeError(String),
    PingPongError(String),
    MaxPeersReached,
    PeerLockError(String),
    InsertPeerError(String),
    SelectPeerError(String),
    NoPeersAvailable,
    CreateDatabaseError(String),
    PeerAlreadyExists(String, u16),
    ZeroBytesRecvError,
    TimeoutError,
    ConnectionClosed,
    NoPeersFound,
    DeletePeerError(String),
    UpdatePeerError(String),
    CreatePeerError(String),
    OpenDatabaseError(String),
    ReadPeerError(String),
}

/// The message that describes a failure.
pub open spec fn error_text(e: SeminarNodeError) -> Seq<char> {
    match e {
        SeminarNodeError::MalformedString => "Malformed string: invalid IPv4 address syntax"@,
        SeminarNodeError::ConnectionError(s) => "Connection error: "@ + s@,
        SeminarNodeError::EncodeError(s) => "Encode error: "@ + s@,
        SeminarNodeError::DecodeError(s) => "Decode error: "@ + s@,
        SeminarNodeError::SendError(s) => "Send error: "@ + s@,
        SeminarNodeError::TimeError(s) => "Time error: "@ + s@,
        SeminarNodeError::HandshakeError(s) => "Handshake error: "@ + s@,
        SeminarNodeError::PingPongError(s) => "PingPong error: "@ + s@,
        SeminarNodeError::MaxPeersReached => "Max peers reached"@,
        SeminarNodeError::PeerLockError(s) => "Lock error: "@ + s@,
        SeminarNodeError::InsertPeerError(s) => "Insert peer error: "@ + s@,
        SeminarNodeError::SelectPeerError(s) => "Select peer error: "@ + s@,
        SeminarNodeError::NoPeersAvailable => "No peers available"@,
        SeminarNodeError::CreateDatabaseError(s) => "Create database error: "@ + s@,
        SeminarNodeError::PeerAlreadyExists(ip, port) => "Peer already exists: "@ + ip@ + ":"@ + dec_text(port as nat),
        SeminarNodeError::ZeroBytesRecvError => "Received zero bytes"@,
        SeminarNodeError::TimeoutError => "Max timeout reached"@,
        SeminarNodeError::ConnectionClosed => "Connection closed"@,
        SeminarNodeError::NoPeersFound => "No peers found"@,
        SeminarNodeError::DeletePeerError(s) => "Delete peer error: "@ + s@,
        SeminarNodeError::UpdatePeerError(s) => "Update peer error: "@ + s@,
        SeminarNodeError::CreatePeerError(s) => "Create peer error: "@ + s@,
        SeminarNodeError::OpenDatabaseError(s) => "Open database error: "@ + s@,
        SeminarNodeError::ReadPeerError(s) => "Read peer error: "@ + s@,
    }
}

impl SeminarNodeError {
    /// The message that describes this failure.
    pub fn to_string(&self) -> (r: String)
        ensures
            r@ == error_text(*self),
    {
        match self {
            SeminarNodeError::MalformedString => "Malformed string: invalid IPv4 address syntax".to_owned(),
            SeminarNodeError::ConnectionError(s) => "Connection error: ".to_owned().concat(s.as_str()),
            SeminarNodeError::EncodeError(s) => "Encode error: ".to_owned().concat(s.as_str()),
            SeminarNodeError::DecodeError(s) => "Decode error: ".to_owned().concat(s.as_str()),
            SeminarNodeError::SendError(s) => "Send error: ".to_owned().concat(s.as_str()),
            SeminarNodeError::TimeError(s) => "Time error: ".to_owned().concat(s.as_str()),
            SeminarNodeError::HandshakeError(s) => "Handshake error: ".to_owned().concat(s.as_str()),
            SeminarNodeError::PingPongError(s) => "PingPong error: ".to_owned().concat(s.as_str()),
            SeminarNodeError::MaxPeersReached => "Max peers reached".to_owned(),
            SeminarNodeError::PeerLockError(s) => "Lock error: ".to_owned().concat(s.as_str()),
            SeminarNodeError::InsertPeerError(s) => "Insert peer error: ".to_owned().concat(s.as_str()),
            SeminarNodeError::SelectPeerError(s) => "Select peer error: ".to_owned().concat(s.as_str()),
            SeminarNodeError::NoPeersAvailable => "No peers available".to_owned(),
            SeminarNodeError::CreateDatabaseError(s) => "Create database error: ".to_owned().concat(s.as_str()),
            SeminarNodeError::PeerAlreadyExists(ip, port) => {
                let mut t = "Peer already exists: ".to_owned().concat(ip.as_str());
                t.append(":");
                append_dec(&mut t, *port);
                t
            },
            SeminarNodeError::ZeroBytesRecvError => "Received zero bytes".to_owned(),
            SeminarNodeError::TimeoutError => "Max timeout reached".to_owned(),
            SeminarNodeError::ConnectionClosed => "Connection closed".to_owned(),
            SeminarNodeError::NoPeersFound => "No peers found".to_owned(),
            SeminarNodeError::DeletePeerError(s) => "Delete peer error: ".to_owned().concat(s.as_str()),
            SeminarNodeError::UpdatePeerError(s) => "Update peer error: ".to_owned().concat(s.as_str()),
            SeminarNodeError::CreatePeerError(s) => "Create peer error: ".to_owned().concat(s.as_str()),
            SeminarNodeError::OpenDatabaseError(s) => "Open database error: ".to_owned().concat(s.as_str()),
            SeminarNodeError::ReadPeerError(s) => "Read peer error: ".to_owned().concat(s.as_str()),
        }
    }
}

} // verus!
