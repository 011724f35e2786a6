use seminar_node::error::SeminarNodeError;

#[test]
fn error_messages() {
    assert_eq!(SeminarNodeError::MalformedString.to_string(), "Malformed string: invalid IPv4 address syntax");
    assert_eq!(SeminarNodeError::ConnectionError("refused".to_string()).to_string(), "Connection error: refused");
    assert_eq!(SeminarNodeError::MaxPeersReached.to_string(), "Max peers reached");
    assert_eq!(SeminarNodeError::NoPeersAvailable.to_string(), "No peers available");
    assert_eq!(
        SeminarNodeError::PeerAlreadyExists("1.2.3.4".to_string(), 8333).to_string(),
        "Peer already exists: 1.2.3.4:8333"
    );
    assert_eq!(SeminarNodeError::PeerAlreadyExists("::1".to_string(), 0).to_string(), "Peer already exists: ::1:0");
    assert_eq!(SeminarNodeError::ZeroBytesRecvError.to_string(), "Received zero bytes");
    assert_eq!(SeminarNodeError::TimeoutError.to_string(), "Max timeout reached");
    assert_eq!(SeminarNodeError::ConnectionClosed.to_string(), "Connection closed");
    assert_eq!(SeminarNodeError::NoPeersFound.to_string(), "No peers found");
    assert_eq!(SeminarNodeError::HandshakeError("ping".to_string()).to_string(), "Handshake error: ping");
    assert_eq!(SeminarNodeError::UpdatePeerError("locked".to_string()).to_string(), "Update peer error: locked");
}
