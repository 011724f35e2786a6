use vstd::prelude::*;

use crate::node::DEFAULT_PORT;
use crate::text::text_is;

verus! {

/// The command line of the node daemon, as given.
#[derive(Debug, Clone)]
pub struct Daemon {
    /// The IP address of the first peer.
    pub host: String,
    /// The port of the first peer (default: 8333).
    pub port: Option<u16>,
    /// The most connections at once (default: 8).
    pub max_peers: Option<u32>,
    /// Whether the node is a relay node (default: false).
    pub relay: Option<bool>,
    /// How much to log.
    pub log_level: Option<String>,
    /// The directory that holds the peers table.
    pub db_path: Option<String>,
}

/// How much the daemon logs.
#[derive(Debug, Clone, Copy, PartialEq, Eq, Structural)]
pub enum LogLevel {
    Error,
    Warn,
    Info,
    Debug,
    Trace,
}

/// What the daemon runs with, every default filled in.
#[derive(Debug, Clone)]
pub struct Settings {
    pub host: String,
    pub port: u16,
    pub max_peers: u32,
    pub relay: bool,
    pub db_path: String,
    pub log_level: LogLevel,
}

/// The number of connections when none is given.
pub const DEFAULT_MAX_PEERS: u32 = 8;

/// The level that a text names: `error`, `warn`, `info`, `debug` or
/// `trace`; any other text, or none, means `info`.
pub open spec fn level_of_text(t: Option<Seq<char>>) -> LogLevel {
    match t {
        Some(s) => if s == "error"@ {
            LogLevel::Error
        } else if s == "warn"@ {
            LogLevel::Warn
        } else if s == "info"@ {
            LogLevel::Info
        } else if s == "debug"@ {
            LogLevel::Debug
        } else if s == "trace"@ {
            LogLevel::Trace
        } else {
            LogLevel::Info
        },
        None => LogLevel::Info,
    }
}

/// The directory of the peers table when none is given: `.seminar_node`
/// in the home directory, or in the current directory where no home
/// directory is known.
pub open spec fn default_db_path(home: Option<Seq<char>>) -> Seq<char> {
    match home {
        Some(h) => h + "/.seminar_node"@,
        None => "./.seminar_node"@,
    }
}

impl Daemon {
    /// The log level that the command line asks for.
    pub fn log_level_filter(level: &Option<String>) -> (r: LogLevel)
        ensures
            r == level_of_text(match level {
                Some(s) => Some(s@),
                None => None,
            }),
    {
        match level {
            Some(s) => {
                let t = s.as_str();
                if text_is(t, "error") {
                    LogLevel::Error
                } else if text_is(t, "warn") {
                    LogLevel::Warn
                } else if text_is(t, "info") {
                    LogLevel::Info
                } else if text_is(t, "debug") {
                    LogLevel::Debug
                } else if text_is(t, "trace") {
                    LogLevel::Trace
                } else {
                    LogLevel::Info
                }
            },
            None => LogLevel::Info,
        }
    }

    /// The settings of the command line, each default filled in; `home` is
    /// the home directory, where one is known.
    pub fn settings(self, home: Option<String>) -> (r: Settings)
        ensures
            r.host == self.host,
            r.port == (match self.port { Some(p) => p, None => DEFAULT_PORT }),
            r.max_peers == (match self.max_peers { Some(m) => m, None => DEFAULT_MAX_PEERS }),
            r.relay == (match self.relay { Some(b) => b, None => false }),
            r.db_path@ == (match self.db_path {
                Some(p) => p@,
                None => default_db_path(match home { Some(h) => Some(h@), None => None }),
            }),
            r.log_level == level_of_text(match self.log_level { Some(s) => Some(s@), None => None }),
    {
        let log_level = Self::log_level_filter(&self.log_level);
        let port = match self.port {
            Some(p) => p,
            None => DEFAULT_PORT,
        };
        let max_peers = match self.max_peers {
            Some(m) => m,
            None => DEFAULT_MAX_PEERS,
        };
        let relay = match self.relay {
            Some(b) => b,
            None => false,
        };
        let db_path = match self.db_path {
            Some(p) => p,
            None => match home {
                Some(h) => h.concat("/.seminar_node"),
                None => ".".to_owned().concat("/.seminar_node"),
            },
        };
        proof {
            reveal_strlit(".");
            reveal_strlit("/.seminar_node");
            reveal_strlit("./.seminar_node");
            assert(".".view() + "/.seminar_node"@ =~= "./.seminar_node"@);
        }
        Settings { host: self.host, port, max_peers, relay, db_path, log_level }
    }
}

} // verus!
