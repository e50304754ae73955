use ctb::auth::{create_authorization_token, create_jwt_token, query_hash};

#[test]
fn test_query_hash_shape() {
    // no query: nothing to hash
    assert_eq!(query_hash(&None), "");

    // a query hashes to 128 lower-case hex digits, and hashing is not the
    // identity
    let q = "market=KRW-BTC&count=10".to_string();
    let h = query_hash(&Some(q.clone()));
    assert_eq!(h.len(), 128);
    assert!(h.chars().all(|c| c.is_ascii_hexdigit() && !c.is_ascii_uppercase()));
    assert_ne!(h, q);

    // different queries hash differently
    let h2 = query_hash(&Some("market=KRW-ETH&count=10".to_string()));
    assert_ne!(h, h2);

    // the same query hashes the same
    assert_eq!(h, query_hash(&Some(q)));
}

#[test]
fn test_create_jwt_token_shape() {
    let token = create_jwt_token(&None, "access", "secret", "nonce-1").unwrap();
    // an HS512 JWT: base64url header, payload and signature
    assert_eq!(token.split('.').count(), 3);
    assert!(token.starts_with("eyJhbGciOiJIUzUxMiJ9."));

    // the token is a function of its inputs
    let again = create_jwt_token(&None, "access", "secret", "nonce-1").unwrap();
    assert_eq!(token, again);
    let other_nonce = create_jwt_token(&None, "access", "secret", "nonce-2").unwrap();
    assert_ne!(token, other_nonce);
    let other_secret = create_jwt_token(&None, "access", "other", "nonce-1").unwrap();
    assert_ne!(token, other_secret);
    let with_query = create_jwt_token(&Some("a=1".to_string()), "access", "secret", "nonce-1")
        .unwrap();
    assert_ne!(token, with_query);
}

#[test]
fn test_create_authorization_token() {
    let token = create_authorization_token(&Some("a=1".to_string()), "access", "secret").unwrap();
    assert!(token.starts_with("Bearer eyJhbGciOiJIUzUxMiJ9."));
    assert_eq!(token.trim_start_matches("Bearer ").split('.').count(), 3);
}
