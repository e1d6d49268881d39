//! The protocol of one client connection, as a state machine.
//!
//! The task that owns the socket turns what happens (a frame, a message
//! pushed by the hub, a heartbeat tick) into an `Event`, hands it to
//! `Session::step` with the current time, and performs the `Action` it gets
//! back. Decisions live here; the socket, the clock and the hub call live
//! with the caller.
use vstd::prelude::*;

verus! {

/// How often the session pings its client, in milliseconds.
pub const HEARTBEAT_INTERVAL_MS: u64 = 5000;

/// How long a client may stay silent before it is dropped, in milliseconds.
pub const CLIENT_TIMEOUT_MS: u64 = 10000;

/// The close frame's code and optional description.
pub struct CloseReason {
    pub code: u16,
    pub description: Option<String>,
}

/// Where a session is in its life.
#[derive(PartialEq, Eq, Structural)]
pub enum Phase {
    /// Registered with the hub and pumping frames.
    Active,
    /// Terminated: the hub entry must go, then the socket is closed.
    Closing,
    /// Deregistered and closed; nothing more happens.
    Closed,
}

/// What the connection task observed.
pub enum Event {
    /// A ping control frame with its payload.
    Ping(Vec<u8>),
    /// A pong control frame.
    Pong,
    /// A data frame that decoded to an envelope, given in its encoded form.
    Envelope(String),
    /// A data frame that is not a well-formed envelope.
    Malformed,
    /// A close frame, with the peer's reason if it gave one.
    Close(Option<CloseReason>),
    /// A message the hub queued for this session.
    Pushed(String),
    /// The session's outbound queue has no sender left.
    QueueClosed,
    /// Writing to the socket failed.
    WriteFailed,
    /// The client's frame stream ended or failed.
    StreamEnded,
    /// The heartbeat timer fired.
    Tick,
}

/// What the connection task must do next.
pub enum Action {
    /// Answer a ping with this payload.
    SendPong(Vec<u8>),
    /// Send a heartbeat ping.
    SendPing,
    /// Hand this envelope to the hub for the session's project.
    Broadcast(String),
    /// Write this text frame to the socket.
    SendText(String),
    /// Nothing to do.
    Ignore,
    /// Remove this session from the hub; then call `Session::finish`.
    Deregister,
}

/// One client connection: its project, its id in the hub, when it was last
/// heard from, and its phase.
pub struct Session {
    pub project: String,
    pub id: String,
    pub last_heartbeat: u64,
    pub phase: Phase,
    pub reason: Option<CloseReason>,
}

/// Whether a client last heard from at `last` has timed out at `now`.
pub open spec fn timed_out(last: u64, now: u64) -> bool {
    now > last && now - last > CLIENT_TIMEOUT_MS
}

/// `s` entering `Closing` with `reason`.
pub open spec fn closing(s: Session, reason: Option<CloseReason>) -> Session {
    Session { phase: Phase::Closing, reason, ..s }
}

/// The transition of the session protocol: the session after `event` at time
/// `now`, and the action to perform. A session that is no longer active
/// ignores every event.
pub open spec fn next(s: Session, event: Event, now: u64) -> (Session, Action) {
    if s.phase != Phase::Active {
        (s, Action::Ignore)
    } else {
        match event {
            Event::Ping(payload) => (Session { last_heartbeat: now, ..s }, Action::SendPong(payload)),
            Event::Pong => (Session { last_heartbeat: now, ..s }, Action::Ignore),
            Event::Envelope(text) => (s, Action::Broadcast(text)),
            Event::Malformed => (s, Action::Ignore),
            Event::Close(reason) => (closing(s, reason), Action::Deregister),
            Event::Pushed(text) => (s, Action::SendText(text)),
            Event::QueueClosed => (closing(s, None), Action::Deregister),
            Event::WriteFailed => (closing(s, None), Action::Deregister),
            Event::StreamEnded => (closing(s, None), Action::Deregister),
            Event::Tick => if timed_out(s.last_heartbeat, now) {
                (closing(s, None), Action::Deregister)
            } else {
                (s, Action::SendPing)
            },
        }
    }
}

impl Session {
    /// A session registered under `project` as `id`, heard from at `now`.
    pub fn new(project: String, id: String, now: u64) -> (s: Session)
        ensures
            s.project == project,
            s.id == id,
            s.last_heartbeat == now,
            s.phase == Phase::Active,
            s.reason is None,
    {
        Session { project, id, last_heartbeat: now, phase: Phase::Active, reason: None }
    }

    /// Whether the session still pumps frames.
    pub fn is_active(&self) -> (r: bool)
        ensures
            r == (self.phase == Phase::Active),
    {
        self.phase == Phase::Active
    }

    /// Applies `event`, observed at `now`, and returns what to do about it.
    pub fn step(&mut self, event: Event, now: u64) -> (action: Action)
        ensures
            (*final(self), action) == next(*old(self), event, now),
    {
        if self.phase != Phase::Active {
            return Action::Ignore;
        }
        match event {
            Event::Ping(payload) => {
                self.last_heartbeat = now;
                Action::SendPong(payload)
            },
            Event::Pong => {
                self.last_heartbeat = now;
                Action::Ignore
            },
            Event::Envelope(text) => Action::Broadcast(text),
            Event::Malformed => Action::Ignore,
            Event::Close(reason) => {
                self.enter_closing(reason);
                Action::Deregister
            },
            Event::Pushed(text) => Action::SendText(text),
            Event::QueueClosed => {
                self.enter_closing(None);
                Action::Deregister
            },
            Event::WriteFailed => {
                self.enter_closing(None);
                Action::Deregister
            },
            Event::StreamEnded => {
                self.enter_closing(None);
                Action::Deregister
            },
            Event::Tick => {
                if now > self.last_heartbeat && now - self.last_heartbeat > CLIENT_TIMEOUT_MS {
                    self.enter_closing(None);
                    Action::Deregister
                } else {
                    Action::SendPing
                }
            },
        }
    }

    fn enter_closing(&mut self, reason: Option<CloseReason>)
        ensures
            *final(self) == closing(*old(self), reason),
    {
        self.phase = Phase::Closing;
        self.reason = reason;
    }

    /// Ends a session that has been deregistered: it becomes `Closed`, and
    /// the reason to put in the closing handshake is handed back (`None` for
    /// an abnormal end).
    pub fn finish(&mut self) -> (reason: Option<CloseReason>)
        requires
            old(self).phase == Phase::Closing,
        ensures
            final(self).phase == Phase::Closed,
            final(self).project == old(self).project,
            final(self).id == old(self).id,
            final(self).last_heartbeat == old(self).last_heartbeat,
            final(self).reason is None,
            reason == old(self).reason,
    {
        self.phase = Phase::Closed;
        let mut taken: Option<CloseReason> = None;
        std::mem::swap(&mut taken, &mut self.reason);
        taken
    }
}

/// The session and the actions after a sequence of timed events.
pub open spec fn run(s: Session, events: Seq<(Event, u64)>) -> (Session, Seq<Action>)
    decreases events.len(),
{
    if events.len() == 0 {
        (s, Seq::empty())
    } else {
        let (before, acts) = run(s, events.drop_last());
        let (after, act) = next(before, events.last().0, events.last().1);
        (after, acts.push(act))
    }
}

/// How many times a sequence of actions deregisters.
pub open spec fn deregistrations(actions: Seq<Action>) -> nat
    decreases actions.len(),
{
    if actions.len() == 0 {
        0
    } else {
        deregistrations(actions.drop_last()) + if actions.last() is Deregister {
            1nat
        } else {
            0nat
        }
    }
}

/// Whatever happens to an active session, its hub entry is removed at most
/// once: exactly once if the session has terminated, never while it is
/// still active.
pub proof fn lemma_deregister_once(s: Session, events: Seq<(Event, u64)>)
    requires
        s.phase == Phase::Active,
    ensures
        deregistrations(run(s, events).1) == if run(s, events).0.phase == Phase::Active {
            0nat
        } else {
            1nat
        },
    decreases events.len(),
{
    if events.len() > 0 {
        lemma_deregister_once(s, events.drop_last());
        let (before, acts) = run(s, events.drop_last());
        let (after, act) = next(before, events.last().0, events.last().1);
        assert(run(s, events).1 == acts.push(act));
        assert(acts.push(act).drop_last() == acts);
    }
}

} // verus!
