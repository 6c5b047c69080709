use fixer::auth::{
    PasswordError, PasswordHashValue, expired_session_cookie, hash_password, is_state_changing,
    session_cookie, validate_password, validate_registration, verify_password, digest, issue_secret,
    derive_secret,
};
use fixer::auth_policy::{AuthConfigError, AuthState, bearer_token, cookie_value, login_username, validate_origin};

#[test]
fn passwords_hash_and_verify() {
    let hashed = hash_password("correct horse battery").unwrap();
    assert!(hashed.as_str().starts_with("$argon2id$"));
    assert_eq!(verify_password("correct horse battery", &hashed), Ok(true));
    assert_eq!(verify_password("wrong password", &hashed), Ok(false));
    assert!(matches!(hash_password(""), Err(PasswordError::InvalidPasswordLength)));
    assert_eq!(validate_password(&"x".repeat(1025)), Err(PasswordError::InvalidPasswordLength));
    let reparsed = PasswordHashValue::parse(hashed.as_str().to_owned()).unwrap();
    assert_eq!(reparsed.as_str(), hashed.as_str());
    assert!(PasswordHashValue::parse("not a hash".to_owned()).is_err());
}

#[test]
fn secrets_have_their_prefix_and_stable_digests() {
    let secret = issue_secret("fixer_session_").unwrap();
    assert!(secret.starts_with("fixer_session_"));
    assert_eq!(secret.len(), "fixer_session_".len() + 43);
    assert_eq!(digest("abc"), digest("abc"));
    assert_ne!(digest("abc"), digest("abd"));
    assert_ne!(derive_secret("p_", b"ctx", "s"), derive_secret("p_", b"other", "s"));
    assert!(derive_secret("p_", b"ctx", "s").starts_with("p_"));
}

#[test]
fn session_cookies_follow_the_policy() {
    assert_eq!(
        session_cookie("tok", true, 3600),
        "fixer_session=tok; Path=/api; HttpOnly; SameSite=Strict; Max-Age=3600; Secure"
    );
    assert_eq!(
        expired_session_cookie(false),
        "fixer_session=; Path=/api; HttpOnly; SameSite=Strict; Max-Age=0"
    );
}

#[test]
fn registration_fields_are_reported() {
    assert!(validate_registration("admin", "long enough").is_ok());
    let details = validate_registration("ab", "short").unwrap_err();
    assert_eq!(details.len(), 2);
    assert_eq!(details[0].0, "password");
    assert_eq!(details[1].0, "username");
    assert!(is_state_changing("POST"));
    assert!(!is_state_changing("GET"));
}

#[test]
fn origins_are_validated_and_normalized() {
    assert_eq!(validate_origin("https://example.com/").unwrap(), "https://example.com");
    assert!(matches!(
        validate_origin("https://example.com/path"),
        Err(AuthConfigError::InvalidOrigin(_))
    ));
    assert!(validate_origin("https://*.example.com").is_err());
    let state = AuthState::new()
        .with_allowed_origins(&vec![
            "https://b.example".to_owned(),
            "https://a.example/".to_owned(),
            "https://b.example/".to_owned(),
        ])
        .unwrap();
    assert_eq!(
        state.allowed_origins(),
        &vec!["https://a.example".to_owned(), "https://b.example".to_owned()]
    );
    assert!(state.origin_allowed("https://a.example"));
    assert!(!state.origin_allowed("https://c.example"));
    assert!(matches!(
        AuthState::new().with_session_lifetime(0, 0),
        Err(AuthConfigError::EmptySessionLifetime)
    ));
    assert_eq!(AuthState::new().session_lifetime_secs(), 43200);
}

#[test]
fn credentials_are_read_from_headers() {
    let headers = vec!["a=1; fixer_session=; b=2".to_owned(), "fixer_session=tok".to_owned()];
    assert_eq!(cookie_value(&headers, "fixer_session"), Some("tok".to_owned()));
    assert_eq!(cookie_value(&headers, "missing"), None);
    assert_eq!(bearer_token(Some("Bearer abc")), Some("abc".to_owned()));
    assert_eq!(bearer_token(Some("Bearer a b")), None);
    assert_eq!(bearer_token(Some("Bearer ")), None);
    assert_eq!(bearer_token(Some("Basic abc")), None);
    assert_eq!(bearer_token(None), None);
    assert_eq!(login_username("  admin ", "pw"), Some("admin".to_owned()));
    assert_eq!(login_username("   ", "pw"), None);
}

#[test]
fn derived_secret_is_url_safe_base64_of_the_digest() {
    assert_eq!(
        derive_secret("p_", b"ctx", "s"),
        "p_FdQz3rRT3JMSXJxGYdLC0DjSSvFM_gfwgn4jrjvhKFk"
    );
    let secret = issue_secret("k_").unwrap();
    assert_eq!(secret.len(), 2 + 43);
    assert!(secret[2..].chars().all(|c| c.is_ascii_alphanumeric() || c == '-' || c == '_'));
}

#[test]
fn issued_secrets_render_redacted() {
    let session = fixer::auth::IssuedSession::new("fixer_session_abc".to_owned(), "fixer_csrf_def".to_owned(), 1000);
    assert_eq!(session.token(), "fixer_session_abc");
    assert_eq!(
        session.redacted(),
        "IssuedSession { token: \"[REDACTED]\", csrf_token: \"[REDACTED]\", expires_at_ms: 1000 }"
    );
    let token = fixer::auth::IssuedApiToken::new(7, "fixer_api_secret".to_owned());
    assert_eq!(token.token(), "fixer_api_secret");
    assert_eq!(token.redacted(), "IssuedApiToken { id: 7, token: \"[REDACTED]\" }");
    assert_eq!(
        fixer::auth::IssuedApiToken::new(-3, String::new()).redacted(),
        "IssuedApiToken { id: -3, token: \"[REDACTED]\" }"
    );
}
