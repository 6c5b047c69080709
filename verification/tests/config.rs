use fixer::config::{
    ConfigLoadError, LegacyTargets, ProvidersConfig, TrustedProxyConfig, apply_legacy_overrides,
};
use fixer::env::EnvMap;
use fixer::validation::{validate_allowed_origins, validate_provider_endpoints, validate_trusted_proxy};

fn environment(pairs: &[(&str, &str)]) -> EnvMap {
    let mut map = EnvMap::new();
    for (key, value) in pairs {
        map.insert((*key).to_owned(), (*value).to_owned());
    }
    map
}

fn apply(env: &EnvMap) -> Result<(), ConfigLoadError> {
    let mut providers = ProvidersConfig::default();
    let mut enabled = vec!["local".to_owned(), "tmdb".to_owned()];
    let mut origins = Vec::new();
    let mut https = false;
    let mut proxy = TrustedProxyConfig::default();
    apply_legacy_overrides(
        env,
        false,
        &mut providers,
        &mut enabled,
        LegacyTargets {
            allowed_origins: &mut origins,
            https_termination: &mut https,
            trusted_proxy: &mut proxy,
        },
    )
}

#[test]
fn malformed_legacy_boolean_fails_closed() {
    let error = apply(&environment(&[("FIXER_ANILIST_ENABLED", "definitely-not")])).unwrap_err();

    assert!(error.to_string().contains("FIXER_ANILIST_ENABLED"));
}

#[test]
fn legacy_booleans_accept_the_usual_words() {
    assert!(apply(&environment(&[("FIXER_ANILIST_ENABLED", " TRUE ")])).is_ok());
    assert!(apply(&environment(&[("FIXER_SERVER_HTTPS_TERMINATION", "off")])).is_ok());
    let error = apply(&environment(&[("FIXER_SERVER_HTTPS_TERMINATION", "maybe")])).unwrap_err();
    assert_eq!(
        error.to_string(),
        "invalid configuration: FIXER_SERVER_HTTPS_TERMINATION must be a boolean"
    );
}

#[test]
fn provider_endpoints_must_be_http() {
    assert!(validate_provider_endpoints(&ProvidersConfig::default()).is_ok());
    let mut providers = ProvidersConfig::default();
    providers.bangumi.base_url = "file:///tmp/api".to_owned();
    let error = validate_provider_endpoints(&providers).unwrap_err().to_string();
    assert!(error.contains("bangumi"), "{error}");
    let mut providers = ProvidersConfig::default();
    providers.openlibrary.cover_base_url = "file:///tmp/api".to_owned();
    let error = validate_provider_endpoints(&providers).unwrap_err().to_string();
    assert!(error.contains("openlibrary"), "{error}");
}

#[test]
fn allowed_origins_and_trusted_proxies_are_checked() {
    assert!(validate_allowed_origins(&vec!["https://example.com".to_owned()]).is_ok());
    let error = validate_allowed_origins(&vec!["https://example.com/private".to_owned()])
        .unwrap_err()
        .to_string();
    assert!(error.contains("origin"), "{error}");

    let mut range = TrustedProxyConfig::default();
    range.ranges = vec!["not-a-cidr".to_owned()];
    assert!(validate_trusted_proxy(&range).unwrap_err().to_string().contains("trusted_proxy"));

    let mut header = TrustedProxyConfig::default();
    header.header = "not a header".to_owned();
    assert!(validate_trusted_proxy(&header).unwrap_err().to_string().contains("trusted_proxy"));

    let mut credential = TrustedProxyConfig::default();
    credential.ranges = vec!["10.0.0.0/8".to_owned()];
    credential.header = "authorization".to_owned();
    assert!(validate_trusted_proxy(&credential).unwrap_err().to_string().contains("trusted_proxy"));
}

#[test]
fn repeated_providers_keep_their_first_position() {
    let providers = vec![
        "tmdb".to_owned(),
        "local".to_owned(),
        "tmdb".to_owned(),
        "anilist".to_owned(),
        "local".to_owned(),
    ];
    assert_eq!(
        fixer::config::dedup_providers(&providers),
        vec!["tmdb".to_owned(), "local".to_owned(), "anilist".to_owned()]
    );
}

use fixer::validation::{ConfidenceProblem, ExternalChecks, validate_config};

fn clean_checks(providers: usize) -> ExternalChecks {
    ExternalChecks {
        locale_error: None,
        confidence: None,
        provider_id_errors: vec![None; providers],
        provider_client_error: None,
        proxy_error: None,
        logging_filter_error: None,
    }
}

fn default_enabled() -> Vec<String> {
    ["local", "tmdb", "bangumi", "musicbrainz", "openlibrary"].iter().map(|p| (*p).to_owned()).collect()
}

fn check(
    providers: &ProvidersConfig,
    origins: &Vec<String>,
    proxy: &TrustedProxyConfig,
    external: &ExternalChecks,
) -> Result<(), ConfigLoadError> {
    validate_config(false, 30, &default_enabled(), 2, None, None, providers, origins, proxy, external)
}

#[test]
fn validation_rejects_invalid_network_and_logging_policy() {
    let mut cases: Vec<(&str, ProvidersConfig, Vec<String>, TrustedProxyConfig, ExternalChecks)> = Vec::new();

    let mut tmdb = ProvidersConfig::default();
    tmdb.tmdb.base_url = "file:///tmp/api".to_owned();
    cases.push(("tmdb", tmdb, vec![], TrustedProxyConfig::default(), clean_checks(5)));

    let mut bangumi = ProvidersConfig::default();
    bangumi.bangumi.base_url = "file:///tmp/api".to_owned();
    cases.push(("bangumi", bangumi, vec![], TrustedProxyConfig::default(), clean_checks(5)));

    let mut anilist = ProvidersConfig::default();
    anilist.anilist.base_url = "file:///tmp/api".to_owned();
    cases.push(("anilist", anilist, vec![], TrustedProxyConfig::default(), clean_checks(5)));

    let mut musicbrainz = ProvidersConfig::default();
    musicbrainz.musicbrainz.base_url = "file:///tmp/api".to_owned();
    cases.push(("musicbrainz", musicbrainz, vec![], TrustedProxyConfig::default(), clean_checks(5)));

    let mut openlibrary_api = ProvidersConfig::default();
    openlibrary_api.openlibrary.base_url = "file:///tmp/api".to_owned();
    cases.push(("openlibrary", openlibrary_api, vec![], TrustedProxyConfig::default(), clean_checks(5)));

    let mut openlibrary_cover = ProvidersConfig::default();
    openlibrary_cover.openlibrary.cover_base_url = "file:///tmp/api".to_owned();
    cases.push(("openlibrary", openlibrary_cover, vec![], TrustedProxyConfig::default(), clean_checks(5)));

    let mut proxy = clean_checks(5);
    proxy.proxy_error = Some("unsupported proxy scheme in file:///tmp/proxy".to_owned());
    cases.push(("proxy", ProvidersConfig::default(), vec![], TrustedProxyConfig::default(), proxy));

    cases.push((
        "origin",
        ProvidersConfig::default(),
        vec!["https://example.com/private".to_owned()],
        TrustedProxyConfig::default(),
        clean_checks(5),
    ));

    let mut trusted_range = TrustedProxyConfig::default();
    trusted_range.ranges = vec!["not-a-cidr".to_owned()];
    cases.push(("trusted_proxy", ProvidersConfig::default(), vec![], trusted_range, clean_checks(5)));

    let mut trusted_header = TrustedProxyConfig::default();
    trusted_header.header = "not a header".to_owned();
    cases.push(("trusted_proxy", ProvidersConfig::default(), vec![], trusted_header, clean_checks(5)));

    let mut credential_header = TrustedProxyConfig::default();
    credential_header.ranges = vec!["10.0.0.0/8".to_owned()];
    credential_header.header = "authorization".to_owned();
    cases.push(("trusted_proxy", ProvidersConfig::default(), vec![], credential_header, clean_checks(5)));

    let mut logging = clean_checks(5);
    logging.logging_filter_error = Some("invalid filter directive `[`".to_owned());
    cases.push(("logging", ProvidersConfig::default(), vec![], TrustedProxyConfig::default(), logging));

    for (expected, providers, origins, proxy, external) in cases {
        let error = check(&providers, &origins, &proxy, &external).unwrap_err().to_string();
        assert!(
            error.to_ascii_lowercase().contains(expected),
            "expected `{expected}` in `{error}`"
        );
    }
}

#[test]
fn configuration_checks_run_in_order() {
    let providers = ProvidersConfig::default();
    let none: Vec<String> = vec![];
    let proxy = TrustedProxyConfig::default();
    assert!(check(&providers, &none, &proxy, &clean_checks(5)).is_ok());
    assert_eq!(
        validate_config(true, 0, &vec![], 0, None, None, &providers, &none, &proxy, &clean_checks(0))
            .unwrap_err()
            .to_string(),
        "invalid configuration: preferred_locales must not be empty"
    );
    assert_eq!(
        validate_config(false, 0, &default_enabled(), 2, None, None, &providers, &none, &proxy, &clean_checks(5))
            .unwrap_err()
            .to_string(),
        "invalid configuration: timeout_seconds must be greater than zero"
    );
    let mut confidence = clean_checks(5);
    confidence.confidence = Some(ConfidenceProblem::ReviewExceedsAutoAccept);
    assert!(check(&providers, &none, &proxy, &confidence)
        .unwrap_err()
        .to_string()
        .contains("must not exceed"));
    let unknown = vec!["local".to_owned(), "imdb".to_owned()];
    assert_eq!(
        validate_config(false, 30, &unknown, 2, None, None, &providers, &none, &proxy, &clean_checks(2))
            .unwrap_err()
            .to_string(),
        "invalid configuration: unknown provider `imdb`"
    );
    assert_eq!(
        validate_config(false, 30, &default_enabled(), 0, None, None, &providers, &none, &proxy, &clean_checks(5))
            .unwrap_err()
            .to_string(),
        "invalid configuration: server.worker_count must be greater than zero"
    );
    assert!(validate_config(false, 30, &default_enabled(), 2, Some("lower"), None, &providers, &none, &proxy, &clean_checks(5))
        .unwrap_err()
        .to_string()
        .contains("providers.tmdb.api_token_env"));
}

#[test]
fn dotenv_values_never_override_the_environment() {
    let mut loader = fixer::config::ConfigLoader::new("/srv".to_string(), environment(&[("TMDB_API_TOKEN", "env")]));
    loader.merge_dotenv(vec![
        ("TMDB_API_TOKEN".to_string(), "file".to_string()),
        ("FIXER_PROXY".to_string(), "http://first".to_string()),
        ("FIXER_PROXY".to_string(), "http://second".to_string()),
    ]);
    assert_eq!(loader.environment.get("TMDB_API_TOKEN").map(|v| v.as_str()), Some("env"));
    assert_eq!(loader.environment.get("FIXER_PROXY").map(|v| v.as_str()), Some("http://first"));
    assert_eq!(loader.cwd, "/srv");
}
