use caduceus_collab::hub::ProjectServer;
use caduceus_collab::session::{Action, Event, Session};
use tokio::sync::mpsc::{unbounded_channel, UnboundedReceiver, UnboundedSender};

fn channel() -> (UnboundedSender<String>, UnboundedReceiver<String>) {
    unbounded_channel()
}

#[test]
fn broadcast_reaches_every_session_of_the_project_including_the_sender() {
    let mut hub = ProjectServer::new();
    let (tx1, mut rx1) = channel();
    let (tx2, mut rx2) = channel();
    let s1 = hub.connect("p1".to_string(), tx1).unwrap();
    let s2 = hub.connect("p1".to_string(), tx2).unwrap();
    assert_ne!(s1, s2);
    let reached = hub.broadcast(&"p1".to_string(), &"edit".to_string());
    assert_eq!(reached, vec![s1, s2]);
    assert_eq!(rx1.try_recv().unwrap(), "edit");
    assert_eq!(rx2.try_recv().unwrap(), "edit");
}

#[test]
fn broadcast_stays_within_its_project() {
    let mut hub = ProjectServer::new();
    let (tx1, mut rx1) = channel();
    let (tx2, mut rx2) = channel();
    let s1 = hub.connect("p1".to_string(), tx1).unwrap();
    hub.connect("p2".to_string(), tx2).unwrap();
    let reached = hub.broadcast(&"p1".to_string(), &"hello".to_string());
    assert_eq!(reached, vec![s1]);
    assert_eq!(rx1.try_recv().unwrap(), "hello");
    assert!(rx2.try_recv().is_err());
}

#[test]
fn broadcast_to_unknown_project_reaches_nobody() {
    let mut hub = ProjectServer::default();
    assert!(hub.broadcast(&"nobody".to_string(), &"x".to_string()).is_empty());
}

#[test]
fn session_ids_are_24_hex_digits() {
    let mut hub = ProjectServer::new();
    let (tx, _rx) = channel();
    let id = hub.connect("p".to_string(), tx).unwrap();
    assert_eq!(id.len(), 24);
    assert!(id.chars().all(|c| c.is_ascii_hexdigit() && !c.is_ascii_uppercase()));
}

#[test]
fn connect_with_taken_id_is_refused() {
    let mut hub = ProjectServer::new();
    let (tx1, _rx1) = channel();
    let (tx2, mut rx2) = channel();
    assert!(hub.connect_with_id("p".to_string(), "a".to_string(), tx1));
    assert!(!hub.connect_with_id("p".to_string(), "a".to_string(), tx2));
    assert_eq!(hub.broadcast(&"p".to_string(), &"m".to_string()), vec!["a".to_string()]);
    assert!(rx2.try_recv().is_err());
}

#[test]
fn same_id_may_live_in_two_projects() {
    let mut hub = ProjectServer::new();
    let (tx1, _rx1) = channel();
    let (tx2, _rx2) = channel();
    assert!(hub.connect_with_id("p".to_string(), "a".to_string(), tx1));
    assert!(hub.connect_with_id("q".to_string(), "a".to_string(), tx2));
}

#[test]
fn disconnect_removes_the_session_and_the_empty_project() {
    let mut hub = ProjectServer::new();
    let (tx1, _rx1) = channel();
    let (tx2, _rx2) = channel();
    assert!(hub.connect_with_id("p".to_string(), "a".to_string(), tx1));
    assert!(hub.connect_with_id("p".to_string(), "b".to_string(), tx2));
    hub.disconnect("p".to_string(), "a".to_string());
    assert_eq!(hub.broadcast(&"p".to_string(), &"m".to_string()), vec!["b".to_string()]);
    hub.disconnect("p".to_string(), "b".to_string());
    assert!(hub.broadcast(&"p".to_string(), &"m".to_string()).is_empty());
    let (tx3, _rx3) = channel();
    assert!(hub.connect_with_id("p".to_string(), "a".to_string(), tx3));
}

#[test]
fn disconnect_twice_is_the_same_as_once() {
    let mut hub = ProjectServer::new();
    let (tx1, _rx1) = channel();
    let (tx2, _rx2) = channel();
    assert!(hub.connect_with_id("p".to_string(), "a".to_string(), tx1));
    assert!(hub.connect_with_id("p".to_string(), "b".to_string(), tx2));
    hub.disconnect("p".to_string(), "a".to_string());
    hub.disconnect("p".to_string(), "a".to_string());
    assert_eq!(hub.broadcast(&"p".to_string(), &"m".to_string()), vec!["b".to_string()]);
    hub.disconnect("nowhere".to_string(), "a".to_string());
    assert_eq!(hub.broadcast(&"p".to_string(), &"m".to_string()), vec!["b".to_string()]);
}

#[test]
fn a_closed_receiver_does_not_stop_the_fan_out() {
    let mut hub = ProjectServer::new();
    let (tx1, rx1) = channel();
    let (tx2, mut rx2) = channel();
    assert!(hub.connect_with_id("p".to_string(), "a".to_string(), tx1));
    assert!(hub.connect_with_id("p".to_string(), "b".to_string(), tx2));
    drop(rx1);
    let reached = hub.broadcast(&"p".to_string(), &"m".to_string());
    assert_eq!(reached, vec!["a".to_string(), "b".to_string()]);
    assert_eq!(rx2.try_recv().unwrap(), "m");
}

#[test]
fn edit_frame_from_one_session_reaches_both_sessions() {
    let mut hub = ProjectServer::new();
    let (tx1, mut rx1) = channel();
    let (tx2, mut rx2) = channel();
    let id1 = hub.connect("p1".to_string(), tx1).unwrap();
    hub.connect("p1".to_string(), tx2).unwrap();
    let mut s1 = Session::new("p1".to_string(), id1, 0);
    match s1.step(Event::Envelope("{\"type\":\"edit\"}".to_string()), 10) {
        Action::Broadcast(text) => {
            assert_eq!(hub.broadcast(&s1.project, &text).len(), 2);
        }
        _ => panic!("expected a broadcast"),
    }
    assert_eq!(rx1.try_recv().unwrap(), "{\"type\":\"edit\"}");
    assert_eq!(rx2.try_recv().unwrap(), "{\"type\":\"edit\"}");
}

#[test]
fn timed_out_session_leaves_the_hub() {
    let mut hub = ProjectServer::new();
    let (tx, _rx) = channel();
    let id = hub.connect("p1".to_string(), tx).unwrap();
    let mut s = Session::new("p1".to_string(), id, 0);
    assert!(matches!(s.step(Event::Tick, 5000), Action::SendPing));
    assert!(matches!(s.step(Event::Tick, 10000), Action::SendPing));
    match s.step(Event::Tick, 15000) {
        Action::Deregister => hub.disconnect(s.project.clone(), s.id.clone()),
        _ => panic!("expected the session to end"),
    }
    assert!(s.finish().is_none());
    assert!(hub.broadcast(&"p1".to_string(), &"m".to_string()).is_empty());
}
