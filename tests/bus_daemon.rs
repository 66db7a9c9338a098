use dialectic::bus::{
    claim_from_bind, exit_status, session_step, socket_path, BindOutcome, ClaimError, ClaimTable,
    Daemon, Liveness, SessionAction, SessionEvent, DEFAULT_SOCKET_PREFIX,
};

#[test]
fn socket_path_for_owner() {
    assert_eq!(socket_path(DEFAULT_SOCKET_PREFIX, 42), "/tmp/dialectic-daemon-42.sock");
    assert_eq!(socket_path("dialectic-test-7", 0), "/tmp/dialectic-test-7-0.sock");
    assert_eq!(socket_path("p", u32::MAX), "/tmp/p-4294967295.sock");
    assert_eq!(socket_path("", 1050), "/tmp/-1050.sock");
}

#[test]
fn claim_twice_conflicts_until_released() {
    let mut table = ClaimTable::new();
    let path = socket_path("dialectic-test", 42);
    assert!(table.claim(path.clone()).is_ok());
    assert!(table.is_claimed(&path));
    match table.claim(path.clone()) {
        Err(ClaimError::AlreadyClaimed { path: p }) => assert_eq!(p, path),
        _ => panic!("second claim should conflict"),
    }
    // Another owner is not affected.
    assert!(table.claim(socket_path("dialectic-test", 43)).is_ok());
    table.release(&path);
    assert!(!table.is_claimed(&path));
    assert!(table.claim(path).is_ok());
}

#[test]
fn bind_outcomes_map_to_claims() {
    assert!(claim_from_bind("a".to_string(), BindOutcome::Bound).is_ok());
    match claim_from_bind("a".to_string(), BindOutcome::AddressInUse) {
        Err(ClaimError::AlreadyClaimed { path }) => assert_eq!(path, "a"),
        _ => panic!("address in use is a claim conflict"),
    }
    match claim_from_bind("a".to_string(), BindOutcome::Failed("denied".to_string())) {
        Err(ClaimError::Io { path, reason }) => {
            assert_eq!(path, "a");
            assert_eq!(reason, "denied");
        }
        _ => panic!("other bind failures are I/O errors"),
    }
    assert_eq!(exit_status(&Ok(())), 0);
    assert_eq!(exit_status(&Err(ClaimError::AlreadyClaimed { path: "a".to_string() })), 1);
}

#[test]
fn session_publishes_trimmed_non_empty_lines() {
    match session_step(SessionEvent::LineRead("  Hello from client 1 \n".to_string())) {
        SessionAction::Publish(t) => assert_eq!(t, "Hello from client 1"),
        _ => panic!("a non-empty line is published"),
    }
    assert!(matches!(
        session_step(SessionEvent::LineRead(" \t\n".to_string())),
        SessionAction::Continue
    ));
    assert!(matches!(session_step(SessionEvent::LineRead(String::new())), SessionAction::Continue));
}

#[test]
fn session_delivers_published_lines_with_terminator() {
    match session_step(SessionEvent::Published("Broadcast message".to_string())) {
        SessionAction::Deliver(t) => assert_eq!(t, "Broadcast message\n"),
        _ => panic!("a published line is delivered"),
    }
}

#[test]
fn session_ends_on_failures_and_skips_lag() {
    assert!(matches!(session_step(SessionEvent::Lagged), SessionAction::Continue));
    for ev in [
        SessionEvent::PeerClosed,
        SessionEvent::ReadFailed,
        SessionEvent::ChannelClosed,
        SessionEvent::WriteFailed,
    ] {
        assert!(matches!(session_step(ev), SessionAction::Disconnect));
    }
}

#[test]
fn fan_out_reaches_every_session() {
    // A line read from one session is published, and each of three
    // subscribers (the sender included) delivers the same line.
    let published = match session_step(SessionEvent::LineRead("Hello from client 1\n".to_string())) {
        SessionAction::Publish(t) => t,
        _ => panic!("line should be published"),
    };
    for _ in 0..3 {
        match session_step(SessionEvent::Published(published.clone())) {
            SessionAction::Deliver(t) => assert_eq!(t, "Hello from client 1\n"),
            _ => panic!("every subscriber delivers"),
        }
    }
}

#[test]
fn daemon_sessions_are_numbered_and_reaped() {
    let mut d: Daemon<&str> = Daemon::new(socket_path("t", 1));
    assert_eq!(d.accept("a"), 0);
    assert_eq!(d.accept("b"), 1);
    assert_eq!(d.accept("c"), 2);
    assert_eq!(d.session_count(), 3);
    let gone = d.reap(&vec![false, true, false]);
    assert_eq!(gone, vec![1]);
    assert_eq!(d.session_count(), 2);
    assert_eq!(*d.session_handle(0), "a");
    assert_eq!(*d.session_handle(1), "c");
    assert_eq!(d.accept("d"), 3);
    let gone = d.reap(&vec![true, true, false]);
    assert_eq!(gone, vec![0, 2]);
    assert_eq!(*d.session_handle(0), "d");
}

#[test]
fn daemon_keeps_running_while_owner_lives() {
    let mut d: Daemon<u8> = Daemon::new(socket_path("t", 2));
    d.accept(9);
    assert!(d.on_probe(Liveness::Alive).is_none());
    assert!(d.on_probe(Liveness::ProbeFailed).is_none());
    assert!(d.is_running());
    assert_eq!(d.session_count(), 1);
}

#[test]
fn daemon_stops_when_owner_is_gone() {
    let mut d: Daemon<u8> = Daemon::new(socket_path("dialectic-test", 999_999));
    d.accept(1);
    d.accept(2);
    let s = d.on_probe(Liveness::Gone).expect("owner death stops the daemon");
    assert_eq!(s.remove_path, "/tmp/dialectic-test-999999.sock");
    assert_eq!(s.handlers, vec![(0, 1), (1, 2)]);
    assert!(!d.is_running());
    assert_eq!(d.session_count(), 0);
}
