use seminar_node::error::SeminarNodeError;
use seminar_node::peer::{Peer, PeerStatus};

#[test]
fn status_texts() {
    assert_eq!(PeerStatus::Awaiting.to_string(), "awaiting");
    assert_eq!(PeerStatus::Reachable.to_string(), "reachable");
    assert_eq!(PeerStatus::Active.to_string(), "active");
    assert_eq!(PeerStatus::Deactivated.to_string(), "deactivated");
    assert_eq!(PeerStatus::Unreachable.to_string(), "unreachable");
    assert_eq!(PeerStatus::Banned.to_string(), "banned");
}

#[test]
fn status_read_back() {
    assert_eq!(PeerStatus::from_str("awaiting"), Ok(PeerStatus::Awaiting));
    assert_eq!(PeerStatus::from_str("active"), Ok(PeerStatus::Active));
    assert_eq!(PeerStatus::from_str("deactivated"), Ok(PeerStatus::Deactivated));
    assert_eq!(PeerStatus::from_str("unreachable"), Ok(PeerStatus::Unreachable));
    assert_eq!(PeerStatus::from_str("banned"), Ok(PeerStatus::Banned));
}

#[test]
fn status_reachable_is_not_read_back() {
    assert_eq!(PeerStatus::from_str("reachable"), Err(()));
}

#[test]
fn status_unknown_texts() {
    assert_eq!(PeerStatus::from_str(""), Err(()));
    assert_eq!(PeerStatus::from_str("Active"), Err(()));
    assert_eq!(PeerStatus::from_str("active "), Err(()));
    assert_eq!(PeerStatus::from_str("ban"), Err(()));
}

#[test]
fn status_round_trip_on_concrete_values() {
    for s in [
        PeerStatus::Awaiting,
        PeerStatus::Active,
        PeerStatus::Deactivated,
        PeerStatus::Unreachable,
        PeerStatus::Banned,
    ] {
        assert_eq!(PeerStatus::from_str(&s.to_string()), Ok(s));
    }
}

#[test]
fn row_with_known_status() {
    let p = Peer::from_row(7, "1.2.3.4".to_string(), 8333, "active").unwrap();
    assert_eq!(p.id, 7);
    assert_eq!(p.ip, "1.2.3.4");
    assert_eq!(p.port, 8333);
    assert_eq!(p.status, PeerStatus::Active);
}

#[test]
fn row_with_unknown_status() {
    assert!(Peer::from_row(7, "1.2.3.4".to_string(), 8333, "reachable").is_err());
    assert!(Peer::from_row(7, "1.2.3.4".to_string(), 8333, "gone").is_err());
}

#[test]
fn copy_keeps_fields() {
    let p = Peer { id: 3, ip: "10.0.0.1".to_string(), port: 18333, status: PeerStatus::Banned };
    let q = p.copy();
    assert_eq!(q.id, 3);
    assert_eq!(q.ip, "10.0.0.1");
    assert_eq!(q.port, 18333);
    assert_eq!(q.status, PeerStatus::Banned);
}

#[test]
fn known_peer_is_refused() {
    assert_eq!(
        Peer::ensure_absent(true, "1.2.3.4".to_string(), 8333),
        Err(SeminarNodeError::PeerAlreadyExists("1.2.3.4".to_string(), 8333))
    );
    assert_eq!(
        Peer::ensure_absent(false, "1.2.3.4".to_string(), 8333),
        Ok(("1.2.3.4".to_string(), 8333, PeerStatus::Awaiting))
    );
}
