use fixer::api_auth::{
    Credential, CorsDecision, after_api_token, after_csrf, after_session, check_registration,
    cors_decision, request_credential,
};
use fixer::auth_policy::AuthState;
use fixer::server_config::{
    ServerConfig, ServerConfigError, cache_control, csv_values, is_content_hashed_asset, parse_bool,
    trusted_proxy_settings,
};

#[test]
fn server_booleans_are_strict() {
    assert!(parse_bool("FIXER_SERVER_HTTPS_TERMINATION", "true").unwrap());
    assert!(!parse_bool("FIXER_SERVER_HTTPS_TERMINATION", "false").unwrap());
    assert!(matches!(
        parse_bool("FIXER_SERVER_HTTPS_TERMINATION", "yes"),
        Err(ServerConfigError::InvalidBoolean { name: "FIXER_SERVER_HTTPS_TERMINATION", .. })
    ));
    assert_eq!(csv_values(" a, ,b "), vec!["a".to_owned(), "b".to_owned()]);
}

#[test]
fn proxy_settings_come_in_pairs() {
    assert!(trusted_proxy_settings(None, None).unwrap().is_none());
    let (ranges, header) = trusted_proxy_settings(Some("10.0.0.0/8, 192.168.0.0/16"), Some("x-real-ip"))
        .unwrap()
        .unwrap();
    assert_eq!(ranges, vec!["10.0.0.0/8".to_owned(), "192.168.0.0/16".to_owned()]);
    assert_eq!(header, "x-real-ip");
    assert!(matches!(
        trusted_proxy_settings(Some("10.0.0.0/8"), None),
        Err(ServerConfigError::IncompleteTrustedProxy)
    ));
}

#[test]
fn server_settings_are_validated() {
    let config = ServerConfig::new("127.0.0.1:8080".to_owned());
    assert_eq!(config.database_path(), "fixer.sqlite3");
    assert_eq!(config.worker_count(), 2);
    assert!(matches!(config.validate_for_serve(), Err(ServerConfigError::MissingMediaRoots)));
    let config = config.with_database_path(String::new());
    assert!(matches!(config, Err(ServerConfigError::EmptyDatabasePath)));
    let config = ServerConfig::new("127.0.0.1:8080".to_owned())
        .with_allowed_origins(&vec!["https://b.example/".to_owned(), "https://a.example".to_owned()])
        .unwrap()
        .with_worker_count(4)
        .unwrap();
    assert_eq!(
        config.allowed_origins(),
        &vec!["https://a.example".to_owned(), "https://b.example".to_owned()]
    );
    assert_eq!(config.worker_count(), 4);
    assert!(ServerConfig::new("x".to_owned()).with_worker_count(0).is_err());
    let proxied = ServerConfig::new("x".to_owned())
        .with_trusted_proxy(&vec!["10.0.0.0/8".to_owned()], "x-real-ip")
        .unwrap();
    assert!(proxied.trusted_proxy_policy().is_enabled());
}

#[test]
fn hashed_assets_are_cached_forever() {
    assert!(is_content_hashed_asset("/assets/index-a1B2c3D4.js"));
    assert!(!is_content_hashed_asset("/assets/index.js"));
    assert!(!is_content_hashed_asset("/index-a1B2c3D4.js"));
    assert!(!is_content_hashed_asset("/assets/index-a1B2c3D!.js"));
    assert_eq!(
        cache_control(true, false, "/assets/app-12345678.css"),
        "public, max-age=31536000, immutable"
    );
    assert_eq!(cache_control(true, true, "/assets/app-12345678.css"), "no-cache");
    assert_eq!(cache_control(false, false, "/assets/app-12345678.css"), "no-cache");
}

#[test]
fn the_authentication_gate_checks_in_order() {
    assert_eq!(
        request_credential(Some("Bearer tok"), &vec!["fixer_session=s".to_owned()]),
        Credential::ApiToken("tok".to_owned())
    );
    assert_eq!(
        request_credential(None, &vec!["fixer_session=s".to_owned()]),
        Credential::Session("s".to_owned())
    );
    assert_eq!(request_credential(None, &vec![]), Credential::Missing);
    assert!(after_api_token(Some(true)).is_ok());
    assert_eq!(after_api_token(Some(false)).unwrap_err().status, 401);
    assert_eq!(after_api_token(None).unwrap_err().status, 500);
    assert_eq!(after_session(Some(true), "GET", None).unwrap(), None);
    assert_eq!(after_session(Some(true), "POST", Some("c")).unwrap(), Some("c".to_owned()));
    assert_eq!(after_session(Some(true), "POST", None).unwrap_err().status, 403);
    assert_eq!(after_csrf(Some(false)).unwrap_err().code, "csrf_validation_failed");
    assert_eq!(check_registration("ab", "pw").unwrap_err().details.unwrap().len(), 2);
}

#[test]
fn cross_origin_requests_are_gated() {
    let state = AuthState::new().with_allowed_origins(&vec!["https://app.example".to_owned()]).unwrap();
    assert_eq!(cors_decision(&state, None, false), CorsDecision::PassThrough);
    assert_eq!(cors_decision(&state, Some(None), false), CorsDecision::Deny);
    assert_eq!(cors_decision(&state, Some(Some("https://evil.example")), false), CorsDecision::Deny);
    assert_eq!(
        cors_decision(&state, Some(Some("https://app.example")), true),
        CorsDecision::Preflight("https://app.example".to_owned())
    );
    assert_eq!(
        cors_decision(&state, Some(Some("https://app.example")), false),
        CorsDecision::Allow("https://app.example".to_owned())
    );
}
