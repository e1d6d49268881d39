use caduceus_collab::handshake::{
    extract_token_from_request, is_object_id, AuthError, Admission, AdmissionAction, AdmissionEvent,
    WebSocketError,
};

const PROJECT: &str = "64b64c4f2f9b256e1c8e4d3a";

fn request(token: Option<&str>) -> AdmissionEvent {
    AdmissionEvent::Request { token: token.map(|t| t.to_string()), project: PROJECT.to_string() }
}

#[test]
fn bearer_header_gives_the_token() {
    let t = extract_token_from_request(Some("Bearer invalid_token".to_string()), None);
    assert_eq!(t, Some("invalid_token".to_string()));
}

#[test]
fn header_without_bearer_falls_back_to_the_cookie() {
    assert_eq!(extract_token_from_request(Some("invalid_token".to_string()), None), None);
    assert_eq!(
        extract_token_from_request(Some("invalid_token".to_string()), Some("c".to_string())),
        Some("c".to_string())
    );
    assert_eq!(
        extract_token_from_request(None, Some("invalid_token".to_string())),
        Some("invalid_token".to_string())
    );
    assert_eq!(extract_token_from_request(None, None), None);
    assert_eq!(extract_token_from_request(Some("Bearer ".to_string()), None), Some(String::new()));
}

#[test]
fn request_without_token_is_unauthorized_and_never_registered() {
    let mut g = Admission::new();
    match g.step(request(None)) {
        AdmissionAction::Unauthorized(e) => {
            assert!(e == AuthError::TokenRequired);
            assert_eq!(e.status_code(), 401);
            assert_eq!(e.message(), "JWT token required");
        }
        _ => panic!("expected 401"),
    }
    assert!(matches!(g.step(AdmissionEvent::IdentityChecked(true)), AdmissionAction::Ignore));
    assert!(matches!(g.step(AdmissionEvent::Upgraded), AdmissionAction::Ignore));
}

#[test]
fn rejected_token_is_unauthorized_and_never_registered() {
    let mut g = Admission::new();
    match g.step(request(Some("bad"))) {
        AdmissionAction::VerifyToken(t) => assert_eq!(t, "bad"),
        _ => panic!("expected a token check"),
    }
    match g.step(AdmissionEvent::IdentityChecked(false)) {
        AdmissionAction::Unauthorized(e) => assert_eq!(e.message(), "Invalid JWT token"),
        _ => panic!("expected 401"),
    }
    assert!(matches!(g.step(AdmissionEvent::ProjectResolved(Some(PROJECT.to_string()))), AdmissionAction::Ignore));
    assert!(matches!(g.step(AdmissionEvent::Upgraded), AdmissionAction::Ignore));
}

#[test]
fn full_admission_registers_the_resolved_project() {
    let mut g = Admission::new();
    assert!(matches!(g.step(request(Some("good"))), AdmissionAction::VerifyToken(_)));
    match g.step(AdmissionEvent::IdentityChecked(true)) {
        AdmissionAction::ResolveProject(p) => assert_eq!(p, PROJECT),
        _ => panic!("expected a project lookup"),
    }
    assert!(matches!(g.step(AdmissionEvent::ProjectResolved(Some(PROJECT.to_string()))), AdmissionAction::Upgrade));
    match g.step(AdmissionEvent::Upgraded) {
        AdmissionAction::Register(p) => assert_eq!(p, PROJECT),
        _ => panic!("expected a registration"),
    }
}

#[test]
fn malformed_or_unknown_project_is_not_found() {
    let mut g = Admission::new();
    g.step(AdmissionEvent::Request { token: Some("t".to_string()), project: "nope".to_string() });
    match g.step(AdmissionEvent::IdentityChecked(true)) {
        AdmissionAction::Refuse(e) => {
            assert_eq!(e.status_code(), 404);
            assert_eq!(e.message(), "Project not Found");
        }
        _ => panic!("expected 404"),
    }
    let mut g = Admission::new();
    g.step(request(Some("t")));
    g.step(AdmissionEvent::IdentityChecked(true));
    assert!(matches!(g.step(AdmissionEvent::ProjectResolved(None)), AdmissionAction::Refuse(WebSocketError::ProjectNotFound)));
}

#[test]
fn failed_upgrade_is_a_bad_request() {
    let mut g = Admission::new();
    g.step(request(Some("t")));
    g.step(AdmissionEvent::IdentityChecked(true));
    g.step(AdmissionEvent::ProjectResolved(Some(PROJECT.to_string())));
    match g.step(AdmissionEvent::UpgradeFailed("no upgrade header".to_string())) {
        AdmissionAction::Refuse(e) => {
            assert_eq!(e.status_code(), 400);
            assert_eq!(e.message(), "Handshake Failed: no upgrade header");
        }
        _ => panic!("expected 400"),
    }
    assert_eq!(WebSocketError::UserNotFound.message(), "User not Found");
    assert_eq!(WebSocketError::UserNotFound.status_code(), 404);
}

#[test]
fn object_id_text_is_24_hex_digits() {
    assert!(is_object_id(PROJECT));
    assert!(is_object_id("64B64C4F2F9B256E1C8E4D3A"));
    assert!(!is_object_id("64b64c4f2f9b256e1c8e4d3"));
    assert!(!is_object_id("64b64c4f2f9b256e1c8e4d3g"));
    assert!(!is_object_id(""));
}
