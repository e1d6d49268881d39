use caduceus_collab::session::{
    Action, CloseReason, Event, Phase, Session, CLIENT_TIMEOUT_MS, HEARTBEAT_INTERVAL_MS,
};

fn fresh() -> Session {
    Session::new("p1".to_string(), "s1".to_string(), 0)
}

#[test]
fn silent_client_is_dropped_within_one_tick_after_the_timeout() {
    assert_eq!(HEARTBEAT_INTERVAL_MS, 5000);
    assert_eq!(CLIENT_TIMEOUT_MS, 10000);
    let mut s = fresh();
    assert!(matches!(s.step(Event::Tick, 5000), Action::SendPing));
    assert!(matches!(s.step(Event::Tick, 10000), Action::SendPing));
    assert!(s.is_active());
    assert!(matches!(s.step(Event::Tick, 15000), Action::Deregister));
    assert!(s.phase == Phase::Closing);
    assert!(s.finish().is_none());
    assert!(s.phase == Phase::Closed);
    assert!(matches!(s.step(Event::Tick, 20000), Action::Ignore));
}

#[test]
fn ping_is_answered_and_keeps_the_session_alive() {
    let mut s = fresh();
    match s.step(Event::Ping(vec![1, 2]), 9000) {
        Action::SendPong(p) => assert_eq!(p, vec![1, 2]),
        _ => panic!("expected a pong"),
    }
    assert_eq!(s.last_heartbeat, 9000);
    assert!(matches!(s.step(Event::Tick, 15000), Action::SendPing));
    assert!(matches!(s.step(Event::Pong, 18000), Action::Ignore));
    assert_eq!(s.last_heartbeat, 18000);
    assert!(matches!(s.step(Event::Tick, 28000), Action::SendPing));
    assert!(matches!(s.step(Event::Tick, 28001), Action::Deregister));
}

#[test]
fn malformed_frame_is_ignored_and_the_session_stays_open() {
    let mut s = fresh();
    assert!(matches!(s.step(Event::Malformed, 100), Action::Ignore));
    assert!(s.is_active());
    assert_eq!(s.last_heartbeat, 0);
}

#[test]
fn decoded_envelope_goes_to_the_hub_and_pushed_text_to_the_socket() {
    let mut s = fresh();
    match s.step(Event::Envelope("{}".to_string()), 1) {
        Action::Broadcast(t) => assert_eq!(t, "{}"),
        _ => panic!("expected a broadcast"),
    }
    match s.step(Event::Pushed("x".to_string()), 2) {
        Action::SendText(t) => assert_eq!(t, "x"),
        _ => panic!("expected a write"),
    }
    assert!(s.is_active());
}

#[test]
fn close_frame_deregisters_once_and_echoes_the_reason() {
    let mut s = fresh();
    let reason = CloseReason { code: 1000, description: Some("bye".to_string()) };
    assert!(matches!(s.step(Event::Close(Some(reason)), 5), Action::Deregister));
    assert!(matches!(s.step(Event::Close(None), 6), Action::Ignore));
    assert!(matches!(s.step(Event::Ping(vec![]), 7), Action::Ignore));
    let back = s.finish().unwrap();
    assert_eq!(back.code, 1000);
    assert_eq!(back.description, Some("bye".to_string()));
}

#[test]
fn failures_end_the_session_without_a_reason() {
    for event in [Event::WriteFailed, Event::QueueClosed, Event::StreamEnded] {
        let mut s = fresh();
        assert!(matches!(s.step(event, 1), Action::Deregister));
        assert!(s.finish().is_none());
    }
}
