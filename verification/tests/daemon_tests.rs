use seminar_node::daemon::{Daemon, LogLevel};

fn daemon() -> Daemon {
    Daemon { host: "1.2.3.4".to_string(), port: None, max_peers: None, relay: None, log_level: None, db_path: None }
}

#[test]
fn defaults() {
    let s = daemon().settings(Some("/home/me".to_string()));
    assert_eq!(s.host, "1.2.3.4");
    assert_eq!(s.port, 8333);
    assert_eq!(s.max_peers, 8);
    assert!(!s.relay);
    assert_eq!(s.db_path, "/home/me/.seminar_node");
    assert_eq!(s.log_level, LogLevel::Info);
}

#[test]
fn default_db_path_without_home() {
    assert_eq!(daemon().settings(None).db_path, "./.seminar_node");
}

#[test]
fn given_values() {
    let d = Daemon {
        host: "5.6.7.8".to_string(),
        port: Some(18333),
        max_peers: Some(3),
        relay: Some(true),
        log_level: Some("debug".to_string()),
        db_path: Some("/var/peers".to_string()),
    };
    let s = d.settings(Some("/home/me".to_string()));
    assert_eq!(s.port, 18333);
    assert_eq!(s.max_peers, 3);
    assert!(s.relay);
    assert_eq!(s.db_path, "/var/peers");
    assert_eq!(s.log_level, LogLevel::Debug);
}

#[test]
fn log_levels() {
    let f = |t: &str| Daemon::log_level_filter(&Some(t.to_string()));
    assert_eq!(f("error"), LogLevel::Error);
    assert_eq!(f("warn"), LogLevel::Warn);
    assert_eq!(f("info"), LogLevel::Info);
    assert_eq!(f("debug"), LogLevel::Debug);
    assert_eq!(f("trace"), LogLevel::Trace);
    assert_eq!(f("verbose"), LogLevel::Info);
    assert_eq!(f("DEBUG"), LogLevel::Info);
    assert_eq!(Daemon::log_level_filter(&None), LogLevel::Info);
}
