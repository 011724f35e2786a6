use vstd::prelude::*;

use crate::error::SeminarNodeError;
use crate::text::text_is;

verus! {

/// The life-cycle state of a known peer, as stored in the peers table.
#[derive(Debug, Clone, Copy, PartialEq, Eq, Structural)]
pub enum PeerStatus {
    Awaiting,
    Reachable,
    Active,
    Deactivated,
    Unreachable,
    Banned,
}

/// The text that stands for a status in the peers table.
pub open spec fn status_text(s: PeerStatus) -> Seq<char> {
    match s {
        PeerStatus::Awaiting => "awaiting"@,
        PeerStatus::Reachable => "reachable"@,
        PeerStatus::Active => "active"@,
        PeerStatus::Deactivated => "deactivated"@,
        PeerStatus::Unreachable => "unreachable"@,
        PeerStatus::Banned => "banned"@,
    }
}

/// The status that a text of the peers table is read back as.
/// `"reachable"` is not among the texts that are read back.
pub open spec fn status_of_text(t: Seq<char>) -> Option<PeerStatus> {
    if t == "awaiting"@ {
        Some(PeerStatus::Awaiting)
    } else if t == "active"@ {
        Some(PeerStatus::Active)
    } else if t == "deactivated"@ {
        Some(PeerStatus::Deactivated)
    } else if t == "unreachable"@ {
        Some(PeerStatus::Unreachable)
    } else if t == "banned"@ {
        Some(PeerStatus::Banned)
    } else {
        None
    }
}

impl PeerStatus {
    /// The text of this status, as written to the peers table.
    pub fn to_string(&self) -> (r: String)
        ensures
            r@ == status_text(*self),
    {
        match self {
            PeerStatus::Awaiting => "awaiting".to_owned(),
            PeerStatus::Reachable => "reachable".to_owned(),
            PeerStatus::Active => "active".to_owned(),
            PeerStatus::Deactivated => "deactivated".to_owned(),
            PeerStatus::Unreachable => "unreachable".to_owned(),
            PeerStatus::Banned => "banned".to_owned(),
        }
    }

    /// Reads a status back from its text in the peers table.
    pub fn from_str(s: &str) -> (r: Result<PeerStatus, ()>)
        ensures
            r == (match status_of_text(s@) {
                Some(st) => Ok(st),
                None => Err(()),
            }),
    {
        if text_is(s, "awaiting") {
            Ok(PeerStatus::Awaiting)
        } else if text_is(s, "active") {
            Ok(PeerStatus::Active)
        } else if text_is(s, "deactivated") {
            Ok(PeerStatus::Deactivated)
        } else if text_is(s, "unreachable") {
            Ok(PeerStatus::Unreachable)
        } else if text_is(s, "banned") {
            Ok(PeerStatus::Banned)
        } else {
            Err(())
        }
    }
}

/// Reading back the text of a status gives the status again, for every
/// status but `Reachable`, whose text is not read back at all.
pub proof fn lemma_status_text_round_trip(s: PeerStatus)
    ensures
        s != PeerStatus::Reachable ==> status_of_text(status_text(s)) == Some(s),
        s == PeerStatus::Reachable ==> status_of_text(status_text(s)) is None,
{
    reveal_strlit("awaiting");
    reveal_strlit("reachable");
    reveal_strlit("active");
    reveal_strlit("deactivated");
    reveal_strlit("unreachable");
    reveal_strlit("banned");
    assert("awaiting"@.len() == 8);
    assert("reachable"@.len() == 9);
    assert("active"@.len() == 6);
    assert("deactivated"@.len() == 11);
    assert("unreachable"@.len() == 11);
    assert("banned"@.len() == 6);
    assert("active"@[0] != "banned"@[0]);
    assert("deactivated"@[0] != "unreachable"@[0]);
}

/// A text is read back as a status only if it is that status's text.
pub proof fn lemma_status_text_read_back(t: Seq<char>)
    ensures
        status_of_text(t) matches Some(s) ==> status_text(s) == t,
{
}

/// A peer known to the node, as a row of the peers table.
#[derive(Debug, Clone)]
pub struct Peer {
    pub id: u32,
    pub ip: String,
    pub port: u16,
    pub status: PeerStatus,
}

impl Peer {
    /// A peer with the same fields as `self`.
    pub fn copy(&self) -> (r: Peer)
        ensures
            r == *self,
    {
        Peer { id: self.id, ip: self.ip.clone(), port: self.port, status: self.status }
    }

    /// Builds a peer from the columns of a row of the peers table; fails where
    /// the status column holds a text that is not read back as a status.
    pub fn from_row(id: u32, ip: String, port: u16, status: &str) -> (r: Result<Peer, ()>)
        ensures
            match status_of_text(status@) {
                Some(st) => r == Ok::<Peer, ()>(Peer { id, ip, port, status: st }),
                None => r == Err::<Peer, ()>(()),
            },
    {
        match PeerStatus::from_str(status) {
            Ok(st) => Ok(Peer { id, ip, port, status: st }),
            Err(()) => Err(()),
        }
    }
    /// The row of a new peer at `ip:port`: it waits for a connection. The
    /// peers table takes no second row for a peer that it knows already.
    pub fn ensure_absent(already_known: bool, ip: String, port: u16) -> (r: Result<(String, u16, PeerStatus), SeminarNodeError>)
        ensures
            already_known ==> r == Err::<(String, u16, PeerStatus), SeminarNodeError>(SeminarNodeError::PeerAlreadyExists(ip, port)),
            !already_known ==> r == Ok::<(String, u16, PeerStatus), SeminarNodeError>((ip, port, PeerStatus::Awaiting)),
    {
        if already_known {
            Err(SeminarNodeError::PeerAlreadyExists(ip, port))
        } else {
            Ok((ip, port, PeerStatus::Awaiting))
        }
    }
}

} // verus!
