use blog::env::Env;
use blog::headers::security_headers_for;

fn header(env: Env, name: &str) -> Option<&'static str> {
    security_headers_for(env)
        .into_iter()
        .find(|(n, _)| *n == name)
        .map(|(_, v)| v)
}

#[test]
fn env_value_matches_only_literal_production() {
    assert_eq!(Env::from_env_value(None), Env::Development);
    assert_eq!(Env::from_env_value(Some("")), Env::Development);
    assert_eq!(Env::from_env_value(Some("Production")), Env::Development);
    assert_eq!(Env::from_env_value(Some("prod")), Env::Development);
    assert_eq!(Env::from_env_value(Some(" production ")), Env::Development);
    assert_eq!(Env::from_env_value(Some("production")), Env::Production);
}

#[test]
fn always_sets_basic_security_headers() {
    for env in [Env::Development, Env::Production] {
        assert_eq!(header(env, "x-content-type-options"), Some("nosniff"), "missing in {env:?}");
        assert_eq!(header(env, "x-frame-options"), Some("DENY"));
        assert_eq!(header(env, "referrer-policy"), Some("strict-origin-when-cross-origin"));
        assert_eq!(header(env, "cross-origin-opener-policy"), Some("same-origin"));
        assert_eq!(header(env, "cross-origin-resource-policy"), Some("same-origin"));
    }
}

#[test]
fn csp_is_strict() {
    let csp = header(Env::Production, "content-security-policy").unwrap();
    assert!(!csp.contains("unsafe-inline"));
    assert!(!csp.contains("unsafe-eval"));
    assert!(csp.contains("default-src 'self'"));
    assert!(csp.contains("script-src 'none'"));
    assert!(csp.contains("frame-ancestors 'none'"));
    assert!(csp.contains("object-src 'none'"));
    assert!(csp.contains("base-uri 'self'"));
}

#[test]
fn permissions_policy_disables_sensors_and_floc() {
    let pp = header(Env::Development, "permissions-policy").unwrap();
    assert!(pp.contains("camera=()"));
    assert!(pp.contains("microphone=()"));
    assert!(pp.contains("geolocation=()"));
    assert!(pp.contains("interest-cohort=()"));
}

#[test]
fn hsts_set_only_in_production() {
    assert!(header(Env::Development, "strict-transport-security").is_none());
    let hsts = header(Env::Production, "strict-transport-security").unwrap();
    assert!(hsts.contains("max-age=31536000"));
    assert!(hsts.contains("includeSubDomains"));
    assert!(hsts.contains("preload"));
    assert_eq!(security_headers_for(Env::Development).len(), 7);
    assert_eq!(security_headers_for(Env::Production).len(), 8);
}
