use seminar_node::error::SeminarNodeError;
use seminar_node::message::{mainnet_magic, AddrEntry, Incoming, NetAddress, Outgoing};
use seminar_node::threaded::{handshake_step, payload_len, peer_endpoint, Endpoint, HandshakeStage, PeerList, SeminarNode};

#[test]
fn create_from_dotted_quad() {
    let n = SeminarNode::create("1.2.3.4".to_string(), 8333, 8, false).unwrap();
    let mapped = [0, 0, 0, 0, 0, 0xffff, 0x0102, 0x0304];
    assert_eq!(n.socket, NetAddress { services: 0, segments: mapped, port: 8333 });
    assert_eq!(n.addr_recv, n.socket);
    assert_eq!(n.addr_trans, NetAddress { services: 0, segments: [0, 0, 0, 0, 0, 0xffff, 0x7f00, 1], port: 8333 });
    assert_eq!(n.version, 70015);
    assert_eq!(n.magic, mainnet_magic());
    assert_eq!(n.start_height, 0);
    assert!(!n.relay);
    assert_eq!(n.user_agent, "RustSeminar:0.0.1/rust:(1.87.0-nightly-3f5502370)/");
    assert_eq!(n.max_peers, 8);
}

#[test]
fn create_refuses_malformed_host() {
    assert_eq!(
        SeminarNode::create("123.456.789.0".to_string(), 8333, 8, false).unwrap_err(),
        SeminarNodeError::MalformedString
    );
    assert_eq!(SeminarNode::create("<change-me>".to_string(), 8333, 8, false).unwrap_err(), SeminarNodeError::MalformedString);
}

#[test]
fn version_message_of_threaded_node() {
    let n = SeminarNode::create("1.2.3.4".to_string(), 18333, 8, true).unwrap();
    match n.version_message(99) {
        Outgoing::Version(v) => {
            assert_eq!(v.version, 70015);
            assert_eq!(v.timestamp, 99);
            assert_eq!(v.receiver, n.addr_recv);
            assert_eq!(v.sender, n.addr_trans);
            assert!(v.relay);
        }
        other => panic!("not a version message: {other:?}"),
    }
    assert_eq!(n.encode(&Outgoing::Verack).len(), 24);
}

#[test]
fn peer_list_bound() {
    let mut list: PeerList<u32> = PeerList::new(2);
    assert_eq!(list.add(1), Ok(()));
    assert_eq!(list.add(2), Ok(()));
    assert_eq!(list.add(3), Err(SeminarNodeError::MaxPeersReached));
    assert_eq!(list.len(), 2);
    let mut none: PeerList<u32> = PeerList::new(0);
    assert_eq!(none.add(1), Err(SeminarNodeError::MaxPeersReached));
    assert_eq!(none.len(), 0);
}

fn step(stage: HandshakeStage, cmd: &str, msg: Incoming) -> Result<(HandshakeStage, Option<Outgoing>), SeminarNodeError> {
    handshake_step(stage, cmd.to_string(), msg)
}

#[test]
fn strict_handshake_in_order() {
    let (s, r) = step(HandshakeStage::AwaitingVersion, "version", Incoming::Version).unwrap();
    assert_eq!((s, r), (HandshakeStage::AwaitingVerack, None));
    let (s, r) = step(s, "verack", Incoming::Verack).unwrap();
    assert_eq!((s, r), (HandshakeStage::AwaitingFeeFilter, Some(Outgoing::Verack)));
    let (s, r) = step(s, "sendcmpct", Incoming::SendCmpct).unwrap();
    assert_eq!((s, r), (HandshakeStage::AwaitingFeeFilter, None));
    let (s, r) = step(s, "ping", Incoming::Ping(77)).unwrap();
    assert_eq!((s, r), (HandshakeStage::AwaitingFeeFilter, Some(Outgoing::Pong(77))));
    let (s, r) = step(s, "feefilter", Incoming::FeeFilter).unwrap();
    assert_eq!((s, r), (HandshakeStage::Complete, None));
}

#[test]
fn strict_handshake_failures() {
    assert_eq!(
        step(HandshakeStage::AwaitingVersion, "verack", Incoming::Verack),
        Err(SeminarNodeError::HandshakeError("verack".to_string()))
    );
    assert_eq!(
        step(HandshakeStage::AwaitingVerack, "ping", Incoming::Ping(1)),
        Err(SeminarNodeError::HandshakeError("ping".to_string()))
    );
    assert_eq!(
        step(HandshakeStage::AwaitingFeeFilter, "inv", Incoming::Other),
        Err(SeminarNodeError::HandshakeError("inv".to_string()))
    );
}

#[test]
fn endpoints_of_addr_entries() {
    let v4 = AddrEntry { time: 0, segments: [0, 0, 0, 0, 0, 0xffff, 0x0102, 0x0304], port: 8333 };
    assert_eq!(peer_endpoint(&v4), Endpoint::V4([1, 2, 3, 4], 8333));
    let compat = AddrEntry { time: 0, segments: [0, 0, 0, 0, 0, 0, 0x0a00, 0x0001], port: 1 };
    assert_eq!(peer_endpoint(&compat), Endpoint::V4([10, 0, 0, 1], 1));
    let v6 = AddrEntry { time: 0, segments: [0x2001, 0xdb8, 0, 0, 0, 0, 0, 1], port: 18333 };
    assert_eq!(peer_endpoint(&v6), Endpoint::V6([0x2001, 0xdb8, 0, 0, 0, 0, 0, 1], 18333));
}

#[test]
fn header_payload_length() {
    let n = SeminarNode::create("1.2.3.4".to_string(), 8333, 8, false).unwrap();
    let ping = n.encode(&Outgoing::Ping(5));
    assert_eq!(payload_len(&ping[..24]), 8);
    let verack = n.encode(&Outgoing::Verack);
    assert_eq!(payload_len(&verack), 0);
    let mut header = [0u8; 24];
    header[16] = 0x01;
    header[17] = 0x02;
    header[18] = 0x03;
    header[19] = 0x04;
    assert_eq!(payload_len(&header), 0x04030201);
}
