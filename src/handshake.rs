//! Admission of a connection before it becomes a session.
//!
//! A request to open a project's live channel carries a credential and the
//! project id it asks for. The `Admission` walks it through, in order: finding a
//! bearer token, having the identity service check it, having the project
//! service resolve the id, and upgrading the protocol. Only when all of these
//! succeed does it tell the caller to register the connection with the hub.
use bson::oid::ObjectId;
use vstd::prelude::*;

verus! {

/// A hex digit as `hex::decode` accepts it, in either case.
pub open spec fn is_hex_digit(c: char) -> bool {
    ('0' <= c && c <= '9') || ('a' <= c && c <= 'f') || ('A' <= c && c <= 'F')
}

/// Text that names an object id: exactly 24 hex digits.
pub open spec fn is_object_id_text(s: Seq<char>) -> bool {
    s.len() == 24 && forall|i: int| 0 <= i < 24 ==> is_hex_digit(#[trigger] s[i])
}

/// Relies on bson's `ObjectId::parse_str`: it decodes the text with
/// `hex::decode` and accepts exactly twelve bytes, so it succeeds on 24 hex
/// digits and on nothing else.
#[verifier::external_body]
fn parse_object_id(text: &str) -> (id: Option<ObjectId>)
    ensures
        id is Some <==> is_object_id_text(text@),
{
    ObjectId::parse_str(text).ok()
}

/// Whether `text` names an object id.
pub fn is_object_id(text: &str) -> (r: bool)
    ensures
        r == is_object_id_text(text@),
{
    parse_object_id(text).is_some()
}

/// The scheme word that opens a bearer credential, with its space.
pub open spec fn bearer_prefix() -> Seq<char> {
    seq!['B', 'e', 'a', 'r', 'e', 'r', ' ']
}

/// The token of an authorization header of the form `Bearer <token>`.
pub open spec fn bearer_token(header: Seq<char>) -> Option<Seq<char>> {
    if header.len() >= 7 && header.take(7) == bearer_prefix() {
        Some(header.skip(7))
    } else {
        None
    }
}

/// The credential of a request: the bearer token of its authorization
/// header, or else the value of its `token` cookie.
pub open spec fn credential(authorization: Option<Seq<char>>, cookie: Option<Seq<char>>) -> Option<
    Seq<char>,
> {
    match authorization {
        Some(h) => match bearer_token(h) {
            Some(t) => Some(t),
            None => cookie,
        },
        None => cookie,
    }
}

/// The view of an optional text.
pub open spec fn opt_view(s: Option<String>) -> Option<Seq<char>> {
    match s {
        Some(t) => Some(t@),
        None => None,
    }
}

/// Finds the request's token: the authorization header (given when it is
/// readable text) if it reads `Bearer <token>`, else the `token` cookie.
pub fn extract_token_from_request(authorization: Option<String>, cookie: Option<String>) -> (token: Option<String>)
    ensures
        opt_view(token) == credential(opt_view(authorization), opt_view(cookie)),
{
    match authorization {
        Some(h) => {
            let len = h.as_str().unicode_len();
            if len >= 7 && starts_with_bearer(h.as_str()) {
                let rest = h.as_str().substring_char(7, len).to_owned();
                assert(h@.take(7) =~= bearer_prefix());
                Some(rest)
            } else {
                proof {
                    if h@.len() >= 7 && h@.take(7) == bearer_prefix() {
                        assert(h@[0] == h@.take(7)[0]);
                        assert(h@[1] == h@.take(7)[1]);
                        assert(h@[2] == h@.take(7)[2]);
                        assert(h@[3] == h@.take(7)[3]);
                        assert(h@[4] == h@.take(7)[4]);
                        assert(h@[5] == h@.take(7)[5]);
                        assert(h@[6] == h@.take(7)[6]);
                    }
                }
                cookie
            }
        },
        None => cookie,
    }
}

/// Whether the first seven characters of `h` are `Bearer `.
fn starts_with_bearer(h: &str) -> (r: bool)
    requires
        h@.len() >= 7,
    ensures
        r == (h@[0] == 'B' && h@[1] == 'e' && h@[2] == 'a' && h@[3] == 'r' && h@[4] == 'e'
            && h@[5] == 'r' && h@[6] == ' '),
{
    h.get_char(0) == 'B' && h.get_char(1) == 'e' && h.get_char(2) == 'a' && h.get_char(3) == 'r'
        && h.get_char(4) == 'e' && h.get_char(5) == 'r' && h.get_char(6) == ' '
}

/// Why the credential check refused a request; both answer 401.
#[derive(PartialEq, Eq, Structural)]
pub enum AuthError {
    /// The request carries no token.
    TokenRequired,
    /// The identity service rejected the token.
    InvalidToken,
}

impl AuthError {
    /// The HTTP status of the refusal.
    pub fn status_code(&self) -> (code: u16)
        ensures
            code == 401,
    {
        401
    }

    /// The message of the refusal.
    pub fn message(&self) -> (text: String)
        ensures
            text@ == match self {
                AuthError::TokenRequired => "JWT token required"@,
                AuthError::InvalidToken => "Invalid JWT token"@,
            },
    {
        match self {
            AuthError::TokenRequired => "JWT token required".to_string(),
            AuthError::InvalidToken => "Invalid JWT token".to_string(),
        }
    }
}

/// Why an authenticated request could not be turned into a session.
pub enum WebSocketError {
    /// The user behind the credential is unknown.
    UserNotFound,
    /// The project id is malformed or names no project.
    ProjectNotFound,
    /// The protocol upgrade failed; the transport's explanation.
    HandshakeFailed(String),
}

/// The message that `WebSocketError::message` gives.
pub open spec fn socket_error_message(e: WebSocketError) -> Seq<char> {
    match e {
        WebSocketError::UserNotFound => "User not Found"@,
        WebSocketError::ProjectNotFound => "Project not Found"@,
        WebSocketError::HandshakeFailed(cause) => "Handshake Failed: "@ + cause@,
    }
}

impl WebSocketError {
    /// The HTTP status of the error: 404 for what is not found, 400 for a
    /// failed upgrade.
    pub fn status_code(&self) -> (code: u16)
        ensures
            code == match self {
                WebSocketError::UserNotFound => 404u16,
                WebSocketError::ProjectNotFound => 404u16,
                WebSocketError::HandshakeFailed(_) => 400u16,
            },
    {
        match self {
            WebSocketError::UserNotFound => 404,
            WebSocketError::ProjectNotFound => 404,
            WebSocketError::HandshakeFailed(_) => 400,
        }
    }

    /// The error's text, as the response body carries it.
    pub fn message(&self) -> (text: String)
        ensures
            text@ == socket_error_message(*self),
    {
        match self {
            WebSocketError::UserNotFound => "User not Found".to_string(),
            WebSocketError::ProjectNotFound => "Project not Found".to_string(),
            WebSocketError::HandshakeFailed(cause) => {
                let mut text = "Handshake Failed: ".to_string();
                text.append(cause.as_str());
                text
            },
        }
    }
}

/// How far a request has come through admission.
#[derive(PartialEq, Eq, Structural)]
pub enum AdmissionStage {
    /// Nothing seen yet.
    Start,
    /// A token was found and is with the identity service.
    AwaitIdentity,
    /// The caller is known; the project service is resolving the id.
    AwaitProject,
    /// The project exists; the protocol upgrade is under way.
    AwaitUpgrade,
    /// Admitted or refused; later events are ignored.
    Done,
}

/// What admission learns along the way.
pub enum AdmissionEvent {
    /// The request: the token `extract_token_from_request` found, if any,
    /// and the project id from the path.
    Request { token: Option<String>, project: String },
    /// The identity service's verdict on the token.
    IdentityChecked(bool),
    /// The project service's answer: the project's id, if it exists.
    ProjectResolved(Option<String>),
    /// The protocol upgrade succeeded.
    Upgraded,
    /// The protocol upgrade failed, with the transport's explanation.
    UpgradeFailed(String),
}

/// What the caller must do next.
pub enum AdmissionAction {
    /// Ask the identity service about this token.
    VerifyToken(String),
    /// Ask the project service for the project with this id.
    ResolveProject(String),
    /// Perform the protocol upgrade.
    Upgrade,
    /// Register the connection with the hub under this project.
    Register(String),
    /// Answer 401 with this reason.
    Unauthorized(AuthError),
    /// Answer with this error.
    Refuse(WebSocketError),
    /// Nothing to do.
    Ignore,
}

/// The admission state of one request.
pub struct Admission {
    pub stage: AdmissionStage,
    /// The project id asked for, then the resolved one.
    pub project: String,
}

/// `g` moved to `stage` with `project`.
pub open spec fn admission_at(stage: AdmissionStage, project: String) -> Admission {
    Admission { stage, project }
}

/// The transition of admission: the state after `event`, and the action to perform.
/// An event that does not fit the stage is ignored.
pub open spec fn admission_next(g: Admission, event: AdmissionEvent) -> (Admission, AdmissionAction) {
    match (g.stage, event) {
        (AdmissionStage::Start, AdmissionEvent::Request { token, project }) => match token {
            None => (admission_at(AdmissionStage::Done, project), AdmissionAction::Unauthorized(AuthError::TokenRequired)),
            Some(t) => (admission_at(AdmissionStage::AwaitIdentity, project), AdmissionAction::VerifyToken(t)),
        },
        (AdmissionStage::AwaitIdentity, AdmissionEvent::IdentityChecked(ok)) => if !ok {
            (admission_at(AdmissionStage::Done, g.project), AdmissionAction::Unauthorized(AuthError::InvalidToken))
        } else if is_object_id_text(g.project@) {
            (admission_at(AdmissionStage::AwaitProject, g.project), AdmissionAction::ResolveProject(g.project))
        } else {
            (admission_at(AdmissionStage::Done, g.project), AdmissionAction::Refuse(WebSocketError::ProjectNotFound))
        },
        (AdmissionStage::AwaitProject, AdmissionEvent::ProjectResolved(found)) => match found {
            None => (admission_at(AdmissionStage::Done, g.project), AdmissionAction::Refuse(WebSocketError::ProjectNotFound)),
            Some(key) => (admission_at(AdmissionStage::AwaitUpgrade, key), AdmissionAction::Upgrade),
        },
        (AdmissionStage::AwaitUpgrade, AdmissionEvent::Upgraded) => (admission_at(AdmissionStage::Done, g.project), AdmissionAction::Register(g.project)),
        (AdmissionStage::AwaitUpgrade, AdmissionEvent::UpgradeFailed(cause)) => (
            admission_at(AdmissionStage::Done, g.project),
            AdmissionAction::Refuse(WebSocketError::HandshakeFailed(cause)),
        ),
        _ => (g, AdmissionAction::Ignore),
    }
}

impl Admission {
    /// An admission that has seen nothing.
    pub fn new() -> (g: Admission)
        ensures
            g.stage == AdmissionStage::Start,
    {
        Admission { stage: AdmissionStage::Start, project: String::new() }
    }

    /// Applies `event` and returns what to do about it.
    pub fn step(&mut self, event: AdmissionEvent) -> (action: AdmissionAction)
        ensures
            (*final(self), action) == admission_next(*old(self), event),
    {
        match event {
            AdmissionEvent::Request { token, project } => {
                if self.stage != AdmissionStage::Start {
                    return AdmissionAction::Ignore;
                }
                match token {
                    None => {
                        *self = Admission { stage: AdmissionStage::Done, project };
                        AdmissionAction::Unauthorized(AuthError::TokenRequired)
                    },
                    Some(t) => {
                        *self = Admission { stage: AdmissionStage::AwaitIdentity, project };
                        AdmissionAction::VerifyToken(t)
                    },
                }
            },
            AdmissionEvent::IdentityChecked(ok) => {
                if self.stage != AdmissionStage::AwaitIdentity {
                    return AdmissionAction::Ignore;
                }
                if !ok {
                    self.stage = AdmissionStage::Done;
                    AdmissionAction::Unauthorized(AuthError::InvalidToken)
                } else if is_object_id(self.project.as_str()) {
                    self.stage = AdmissionStage::AwaitProject;
                    AdmissionAction::ResolveProject(self.project.clone())
                } else {
                    self.stage = AdmissionStage::Done;
                    AdmissionAction::Refuse(WebSocketError::ProjectNotFound)
                }
            },
            AdmissionEvent::ProjectResolved(found) => {
                if self.stage != AdmissionStage::AwaitProject {
                    return AdmissionAction::Ignore;
                }
                match found {
                    None => {
                        self.stage = AdmissionStage::Done;
                        AdmissionAction::Refuse(WebSocketError::ProjectNotFound)
                    },
                    Some(key) => {
                        *self = Admission { stage: AdmissionStage::AwaitUpgrade, project: key };
                        AdmissionAction::Upgrade
                    },
                }
            },
            AdmissionEvent::Upgraded => {
                if self.stage != AdmissionStage::AwaitUpgrade {
                    return AdmissionAction::Ignore;
                }
                self.stage = AdmissionStage::Done;
                AdmissionAction::Register(self.project.clone())
            },
            AdmissionEvent::UpgradeFailed(cause) => {
                if self.stage != AdmissionStage::AwaitUpgrade {
                    return AdmissionAction::Ignore;
                }
                self.stage = AdmissionStage::Done;
                AdmissionAction::Refuse(WebSocketError::HandshakeFailed(cause))
            },
        }
    }
}

/// The admission state and the actions after a sequence of events.
pub open spec fn admission_run(g: Admission, events: Seq<AdmissionEvent>) -> (Admission, Seq<AdmissionAction>)
    decreases events.len(),
{
    if events.len() == 0 {
        (g, Seq::empty())
    } else {
        let (before, acts) = admission_run(g, events.drop_last());
        let (after, act) = admission_next(before, events.last());
        (after, acts.push(act))
    }
}

/// Whether the identity service accepted the token somewhere in `events`.
pub open spec fn identity_confirmed(events: Seq<AdmissionEvent>) -> bool {
    exists|i: int| 0 <= i < events.len() && #[trigger] events[i] == AdmissionEvent::IdentityChecked(true)
}

/// A request is registered with the hub only after the identity service
/// accepted its token: a request without a token, or with one the service
/// rejects, never leads to a registration.
pub proof fn lemma_register_needs_identity(g: Admission, events: Seq<AdmissionEvent>)
    requires
        g.stage == AdmissionStage::Start,
    ensures
        forall|k: int|
            0 <= k < admission_run(g, events).1.len() && (#[trigger] admission_run(g, events).1[k]) is Register
                ==> identity_confirmed(events),
        (admission_run(g, events).0.stage == AdmissionStage::AwaitProject || admission_run(g, events).0.stage
            == AdmissionStage::AwaitUpgrade) ==> identity_confirmed(events),
    decreases events.len(),
{
    if events.len() > 0 {
        let pre = events.drop_last();
        lemma_register_needs_identity(g, pre);
        let (before, acts) = admission_run(g, pre);
        let (after, act) = admission_next(before, events.last());
        assert(admission_run(g, events).1 == acts.push(act));
        if identity_confirmed(pre) {
            let i = choose|i: int| 0 <= i < pre.len() && #[trigger] pre[i] == AdmissionEvent::IdentityChecked(true);
            assert(events[i] == pre[i]);
        }
        if before.stage == AdmissionStage::AwaitIdentity && events.last() == AdmissionEvent::IdentityChecked(true) {
            assert(events[events.len() - 1] == AdmissionEvent::IdentityChecked(true));
        }
        assert forall|k: int|
            0 <= k < admission_run(g, events).1.len() && (#[trigger] admission_run(g, events).1[k]) is Register
                implies identity_confirmed(events) by {
            if k < acts.len() {
                assert(admission_run(g, events).1[k] == acts[k]);
            }
        }
    }
}

} // verus!
