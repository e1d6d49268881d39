use caduceus_collab::config::{Allowed, CorsConfig};

fn unset() -> CorsConfig {
    CorsConfig {
        allow_origins: None,
        allow_methods: None,
        allow_headers: None,
        expose_headers: None,
        max_age: None,
        preflight: None,
        send_wildcard: None,
        supports_credentials: None,
        vary_header: None,
        block_on_origin_mismatch: None,
    }
}

#[test]
fn empty_cors_settings_admit_anything_with_credentials() {
    let p = unset().into_policy();
    assert!(matches!(p.origins, Allowed::Any));
    assert!(matches!(p.methods, Allowed::Any));
    assert!(matches!(p.headers, Allowed::Any));
    assert!(p.preflight);
    assert!(!p.send_wildcard);
    assert!(p.supports_credentials);
    assert!(p.vary_header);
    assert_eq!(p.max_age, None);
    assert_eq!(p.block_on_origin_mismatch, None);
}

#[test]
fn cors_settings_switch_defaults_off() {
    let mut c = unset();
    c.allow_origins = Some(vec!["http://localhost:3000".to_string()]);
    c.preflight = Some(false);
    c.send_wildcard = Some(true);
    c.supports_credentials = Some(false);
    c.vary_header = Some(false);
    c.max_age = Some(3600);
    c.block_on_origin_mismatch = Some(true);
    let p = c.into_policy();
    match p.origins {
        Allowed::Listed(v) => assert_eq!(v, vec!["http://localhost:3000".to_string()]),
        Allowed::Any => panic!("expected a list"),
    }
    assert!(!p.preflight);
    assert!(p.send_wildcard);
    assert!(!p.supports_credentials);
    assert!(!p.vary_header);
    assert_eq!(p.max_age, Some(3600));
    assert_eq!(p.block_on_origin_mismatch, Some(true));
}
