use caduceus_collab::envelope::CursorChangeReason;
use caduceus_collab::middleware::JwtMiddleware;

#[test]
fn reason_codes_run_from_zero_to_six() {
    assert!(CursorChangeReason::from_code(0) == Some(CursorChangeReason::NotSet));
    assert!(CursorChangeReason::from_code(4) == Some(CursorChangeReason::Paste));
    assert!(CursorChangeReason::from_code(6) == Some(CursorChangeReason::Redo));
    assert!(CursorChangeReason::from_code(7).is_none());
    assert_eq!(CursorChangeReason::Explicit.code(), 3);
    for n in 0..=6u8 {
        assert_eq!(CursorChangeReason::from_code(n).unwrap().code(), n);
    }
}

#[test]
fn middleware_keeps_its_secret() {
    let m = JwtMiddleware::new("test_secret".to_string());
    assert_eq!(m.jwt_secret(), "test_secret");
}
