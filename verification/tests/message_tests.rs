use bitcoin::consensus::encode::Encodable;
use bitcoin::p2p::address::Address;
use bitcoin::p2p::message::{NetworkMessage, RawNetworkMessage};
use bitcoin::p2p::message_compact_blocks::SendCmpct;
use bitcoin::p2p::{Magic, ServiceFlags};
use seminar_node::message::{
    decode_message, encode_message, mainnet_magic, AddrEntry, Incoming, NetAddress, Outgoing, VersionFields,
};

fn hex(bytes: &[u8]) -> String {
    bytes.iter().map(|b| format!("{b:02x}")).collect()
}

#[test]
fn mainnet_magic_bytes() {
    assert_eq!(mainnet_magic(), [0xf9, 0xbe, 0xb4, 0xd9]);
}

#[test]
fn verack_wire_bytes() {
    let bytes = encode_message(&mainnet_magic(), &Outgoing::Verack);
    assert_eq!(hex(&bytes), "f9beb4d976657261636b000000000000000000005df6e0e2");
}

#[test]
fn getaddr_wire_bytes() {
    let bytes = encode_message(&mainnet_magic(), &Outgoing::GetAddr);
    assert_eq!(hex(&bytes), "f9beb4d9676574616464720000000000000000005df6e0e2");
}

#[test]
fn ping_wire_layout() {
    let bytes = encode_message(&mainnet_magic(), &Outgoing::Ping(0x0102030405060708));
    assert_eq!(bytes.len(), 32);
    assert_eq!(&bytes[0..4], &[0xf9, 0xbe, 0xb4, 0xd9]);
    assert_eq!(&bytes[4..16], b"ping\0\0\0\0\0\0\0\0");
    assert_eq!(&bytes[16..20], &[8, 0, 0, 0]);
    assert_eq!(&bytes[24..32], &[8, 7, 6, 5, 4, 3, 2, 1]);
}

#[test]
fn version_services_are_encoded() {
    let v = |services: u64| VersionFields {
        version: 70016,
        services,
        timestamp: 0,
        receiver: NetAddress { services, segments: [0; 8], port: 0 },
        sender: NetAddress { services: 0, segments: [0; 8], port: 0 },
        nonce: 0,
        user_agent: String::new(),
        start_height: 0,
        relay: false,
    };
    let none = encode_message(&mainnet_magic(), &Outgoing::Version(v(0)));
    let some = encode_message(&mainnet_magic(), &Outgoing::Version(v(1)));
    assert_eq!(&none[28..36], &[0; 8]);
    assert_eq!(&some[28..36], &[1, 0, 0, 0, 0, 0, 0, 0]);
    assert_eq!(&some[44..52], &[1, 0, 0, 0, 0, 0, 0, 0]);
}

#[test]
fn other_magic_is_used() {
    let bytes = encode_message(&[0x0b, 0x11, 0x09, 0x07], &Outgoing::Verack);
    assert_eq!(&bytes[0..4], &[0x0b, 0x11, 0x09, 0x07]);
}

#[test]
fn decode_what_is_encoded() {
    let m = mainnet_magic();
    let (cmd, msg) = decode_message(&encode_message(&m, &Outgoing::Verack)).unwrap();
    assert_eq!(cmd, "verack");
    assert_eq!(msg, Incoming::Verack);
    let (cmd, msg) = decode_message(&encode_message(&m, &Outgoing::Ping(42))).unwrap();
    assert_eq!(cmd, "ping");
    assert_eq!(msg, Incoming::Ping(42));
    let (cmd, msg) = decode_message(&encode_message(&m, &Outgoing::Pong(42))).unwrap();
    assert_eq!(cmd, "pong");
    assert_eq!(msg, Incoming::Other);
    let (cmd, msg) = decode_message(&encode_message(&m, &Outgoing::GetAddr)).unwrap();
    assert_eq!(cmd, "getaddr");
    assert_eq!(msg, Incoming::Other);
}

#[test]
fn decode_version() {
    let v = VersionFields {
        version: 70016,
        services: 0,
        timestamp: 1_700_000_000,
        receiver: NetAddress { services: 0, segments: [0, 0, 0, 0, 0, 0xffff, 0x0102, 0x0304], port: 8333 },
        sender: NetAddress { services: 0, segments: [0, 0, 0, 0, 0, 0xffff, 0x7f00, 1], port: 8333 },
        nonce: 0,
        user_agent: "RustSeminar:0.0.1/rust:(1.87.0-nightly-3f5502370)/".to_string(),
        start_height: 0,
        relay: false,
    };
    let bytes = encode_message(&mainnet_magic(), &Outgoing::Version(v));
    let (cmd, msg) = decode_message(&bytes).unwrap();
    assert_eq!(cmd, "version");
    assert_eq!(msg, Incoming::Version);
}

#[test]
fn decode_addr_sendcmpct_feefilter() {
    let encode = |payload: NetworkMessage| {
        let mut buf = Vec::new();
        RawNetworkMessage::new(Magic::BITCOIN, payload).consensus_encode(&mut buf).unwrap();
        buf
    };
    let addr = Address { services: ServiceFlags::NONE, address: [0x2001, 0xdb8, 0, 0, 0, 0, 0, 1], port: 18333 };
    let (cmd, msg) = decode_message(&encode(NetworkMessage::Addr(vec![(5, addr)]))).unwrap();
    assert_eq!(cmd, "addr");
    assert_eq!(
        msg,
        Incoming::Addr(vec![AddrEntry { time: 5, segments: [0x2001, 0xdb8, 0, 0, 0, 0, 0, 1], port: 18333 }])
    );
    let (cmd, msg) = decode_message(&encode(NetworkMessage::SendCmpct(SendCmpct { send_compact: false, version: 2 }))).unwrap();
    assert_eq!(cmd, "sendcmpct");
    assert_eq!(msg, Incoming::SendCmpct);
    let (cmd, msg) = decode_message(&encode(NetworkMessage::FeeFilter(1000))).unwrap();
    assert_eq!(cmd, "feefilter");
    assert_eq!(msg, Incoming::FeeFilter);
}

#[test]
fn decode_failures() {
    assert!(decode_message(&[]).is_err());
    assert!(decode_message(&[0xf9, 0xbe, 0xb4]).is_err());
    let mut bytes = encode_message(&mainnet_magic(), &Outgoing::Ping(1));
    let last = bytes.len() - 1;
    bytes[last] ^= 0xff;
    assert!(decode_message(&bytes).is_err());
}
