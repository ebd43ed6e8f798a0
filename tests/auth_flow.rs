use rust_tide_template::auth::{
    read_cred_from_basic_auth, route_credential, split_credential, stripe_index, AuthFailure, AuthMiddleware, AuthRoute,
    AuthStep,
};
use rust_tide_template::cred_cache::{cache_cred, get_cached_cred, CredCache, CRED_TTL_SECS};

fn basic(user_pass: &str) -> String {
    format!("Basic {}", base64_simd::STANDARD.encode_to_string(user_pass.as_bytes()))
}

#[test]
fn cache_returns_latest_put_within_ttl() {
    let mut cache = CredCache::new();
    cache_cred(&mut cache, "alice", "one".to_string(), 100);
    cache_cred(&mut cache, "alice", "two".to_string(), 200);
    cache_cred(&mut cache, "bob", "other".to_string(), 200);
    assert_eq!(get_cached_cred(&mut cache, "alice", 300), Some("two".to_string()));
    assert_eq!(get_cached_cred(&mut cache, "alice", 200 + CRED_TTL_SECS - 1), Some("two".to_string()));
}

#[test]
fn cache_evicts_expired_entry() {
    let mut cache = CredCache::new();
    cache_cred(&mut cache, "alice", "secret".to_string(), 10);
    assert_eq!(get_cached_cred(&mut cache, "alice", 10 + CRED_TTL_SECS), None);
    // The entry is gone: even a lookup at the time it was cached misses.
    assert_eq!(get_cached_cred(&mut cache, "alice", 10), None);
}

#[test]
fn cache_misses_unknown_user() {
    let mut cache = CredCache::new();
    assert_eq!(get_cached_cred(&mut cache, "nobody", 0), None);
}

#[test]
fn basic_header_is_decoded_and_split_at_first_colon() {
    let c = read_cred_from_basic_auth("Basic YWxpY2U6c2VjcmV0").unwrap();
    assert_eq!(c.username, "alice");
    assert_eq!(c.password, "secret");
    let c = read_cred_from_basic_auth(&basic("bob:pa:ss")).unwrap();
    assert_eq!(c.username, "bob");
    assert_eq!(c.password, "pa:ss");
    let c = read_cred_from_basic_auth(&basic(":")).unwrap();
    assert_eq!(c.username, "");
    assert_eq!(c.password, "");
}

#[test]
fn malformed_headers_carry_no_credential() {
    assert!(read_cred_from_basic_auth("").is_none());
    assert!(read_cred_from_basic_auth("Bearer YWxpY2U6c2VjcmV0").is_none());
    assert!(read_cred_from_basic_auth("basic YWxpY2U6c2VjcmV0").is_none());
    assert!(read_cred_from_basic_auth("Basic !!not base64!!").is_none());
    assert!(read_cred_from_basic_auth(&basic("no colon here")).is_none());
}

#[test]
fn invalid_utf8_is_replaced_before_splitting() {
    let header = format!("Basic {}", base64_simd::STANDARD.encode_to_string([0xffu8, b':', b'x']));
    let c = read_cred_from_basic_auth(&header).unwrap();
    assert_eq!(c.username, "\u{fffd}");
    assert_eq!(c.password, "x");
}

#[test]
fn split_credential_edges() {
    assert!(split_credential("abc").is_none());
    let c = split_credential("a:").unwrap();
    assert_eq!((c.username.as_str(), c.password.as_str()), ("a", ""));
}

#[test]
fn malformed_header_refused_without_backend() {
    let mut auth = AuthMiddleware::new();
    for h in ["Token abc", "Basic", "Basic ", &basic("nocolon")] {
        match auth.begin(Some(h), 0) {
            AuthStep::Reject(f) => {
                assert_eq!(f, AuthFailure::CredentialRequired);
                assert_eq!(f.status(), 401);
            }
            other => panic!("unexpected {:?}", other),
        }
    }
}

#[test]
fn scenario_first_request_is_verified_and_cached() {
    let mut auth = AuthMiddleware::new();
    let header = basic("alice:secret");
    let cred = match auth.begin(Some(&header), 1000) {
        AuthStep::Verify(c) => c,
        other => panic!("unexpected {:?}", other),
    };
    assert_eq!(cred.username, "alice");
    assert_eq!(cred.password, "secret");
    assert!(matches!(auth.complete(cred, true, 1000), AuthStep::Proceed));
    assert_eq!(get_cached_cred(&mut auth.cache, "alice", 1000), Some("secret".to_string()));
}

#[test]
fn scenario_repeat_request_hits_cache() {
    let mut auth = AuthMiddleware::new();
    let header = basic("alice:secret");
    if let AuthStep::Verify(c) = auth.begin(Some(&header), 1000) {
        auth.complete(c, true, 1000);
    } else {
        panic!("first request should ask the backend");
    }
    assert!(matches!(auth.begin(Some(&header), 1001), AuthStep::Proceed));
}

#[test]
fn scenario_wrong_password_asks_backend_and_is_refused() {
    let mut auth = AuthMiddleware::new();
    if let AuthStep::Verify(c) = auth.begin(Some(&basic("alice:secret")), 1000) {
        auth.complete(c, true, 1000);
    }
    let cred = match auth.begin(Some(&basic("alice:wrong")), 1002) {
        AuthStep::Verify(c) => c,
        other => panic!("unexpected {:?}", other),
    };
    match auth.complete(cred, false, 1002) {
        AuthStep::Reject(f) => {
            assert_eq!(f.status(), 401);
            assert_eq!(f.message(), "incorrect username or password");
        }
        other => panic!("unexpected {:?}", other),
    }
    assert_eq!(get_cached_cred(&mut auth.cache, "alice", 1002), Some("secret".to_string()));
}

#[test]
fn scenario_missing_header_is_refused() {
    let mut auth = AuthMiddleware::new();
    match auth.begin(None, 0) {
        AuthStep::Reject(f) => {
            assert_eq!(f.status(), 401);
            assert_eq!(f.message(), "basic auth is required");
        }
        other => panic!("unexpected {:?}", other),
    }
}

#[test]
fn expired_cache_entry_asks_backend_again() {
    let mut auth = AuthMiddleware::new();
    let header = basic("alice:secret");
    if let AuthStep::Verify(c) = auth.begin(Some(&header), 0) {
        auth.complete(c, true, 0);
    }
    assert!(matches!(auth.begin(Some(&header), CRED_TTL_SECS), AuthStep::Verify(_)));
}

#[test]
fn credentials_are_routed_to_a_fixed_stripe() {
    let h = basic("alice:secret");
    let first = match route_credential(Some(&h), 16) {
        AuthRoute::Check { stripe, cred } => {
            assert_eq!(cred.username, "alice");
            assert_eq!(cred.password, "secret");
            stripe
        }
        other => panic!("unexpected {:?}", other),
    };
    assert!(first < 16);
    assert_eq!(first, stripe_index("alice", 16));
    // 'a' + 'l' + 'i' + 'c' + 'e' = 97 + 108 + 105 + 99 + 101 = 510
    assert_eq!(stripe_index("alice", 16), 510 % 16);
    assert_eq!(stripe_index("", 7), 0);
    assert_eq!(stripe_index("alice", usize::MAX), 510);
    assert!(matches!(
        route_credential(None, 16),
        AuthRoute::Reject(AuthFailure::CredentialRequired)
    ));
}

#[test]
fn check_cached_decides_on_a_stripe() {
    let mut auth = AuthMiddleware::new();
    let cred = read_cred_from_basic_auth(&basic("bob:pw")).unwrap();
    let cred = match auth.check_cached(cred, 5) {
        AuthStep::Verify(c) => c,
        other => panic!("unexpected {:?}", other),
    };
    assert!(matches!(auth.complete(cred, true, 5), AuthStep::Proceed));
    let again = read_cred_from_basic_auth(&basic("bob:pw")).unwrap();
    assert!(matches!(auth.check_cached(again, 6), AuthStep::Proceed));
}
