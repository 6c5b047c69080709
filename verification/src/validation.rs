//! Checks of URLs, origins, header names and address ranges that the
//! configuration and the server accept.
use vstd::prelude::*;

use crate::config::{
    ConfigLoadError, ProvidersConfig, TrustedProxyConfig, is_known_provider, known_provider,
    reference_message, valid_reference, validate_secret_reference,
};
use crate::text::{chars_of, concat_str, str_equal};

verus! {

broadcast use vstd::string::group_string_axioms;

/// The parts of a parsed URL that the checks read: scheme, whether there is a
/// host, user name, whether there is a password, path, and whether there is a
/// query or a fragment.
pub struct UrlParts {
    pub scheme: String,
    pub has_host: bool,
    pub username: String,
    pub has_password: bool,
    pub path: String,
    pub has_query: bool,
    pub has_fragment: bool,
}

/// What `url::Url::parse` gives for a text: its parts, or its error message.
pub uninterp spec fn url_parse(input: Seq<char>) -> Result<
    (Seq<char>, bool, Seq<char>, bool, Seq<char>, bool, bool),
    Seq<char>,
>;

/// The view of the parts of a URL.
pub open spec fn url_parts_view(parts: UrlParts) -> (
    Seq<char>,
    bool,
    Seq<char>,
    bool,
    Seq<char>,
    bool,
    bool,
) {
    (
        parts.scheme@,
        parts.has_host,
        parts.username@,
        parts.has_password,
        parts.path@,
        parts.has_query,
        parts.has_fragment,
    )
}

/// Parses `input` with `url::Url::parse`; the contract names the parts and
/// the error text through `url_parse`, and says nothing more of them.
#[verifier::external_body]
fn parse_url(input: &str) -> (parsed: Result<UrlParts, String>)
    ensures
        match parsed {
            Ok(p) => url_parse(input@) == Ok::<_, Seq<char>>(url_parts_view(p)),
            Err(e) => url_parse(input@) == Err::<(Seq<char>, bool, Seq<char>, bool, Seq<char>, bool, bool), Seq<char>>(e@),
        },
{
    match url::Url::parse(input) {
        Ok(url) => Ok(UrlParts {
            scheme: url.scheme().to_owned(),
            has_host: url.host_str().is_some(),
            username: url.username().to_owned(),
            has_password: url.password().is_some(),
            path: url.path().to_owned(),
            has_query: url.query().is_some(),
            has_fragment: url.fragment().is_some(),
        }),
        Err(error) => Err(error.to_string()),
    }
}

/// An HTTP or HTTPS scheme.
pub open spec fn http_scheme(scheme: Seq<char>) -> bool {
    scheme == "http"@ || scheme == "https"@
}

/// A provider endpoint: HTTP(S), with a host, without credentials.
pub open spec fn valid_endpoint_parts(p: (Seq<char>, bool, Seq<char>, bool, Seq<char>, bool, bool)) -> bool {
    http_scheme(p.0) && p.1 && p.2.len() == 0 && !p.3
}

/// A browser origin: HTTP(S) with a host, no credentials, root path, no query,
/// no fragment, and no `*` anywhere in the text.
pub open spec fn valid_origin_parts(
    text: Seq<char>,
    p: (Seq<char>, bool, Seq<char>, bool, Seq<char>, bool, bool),
) -> bool {
    http_scheme(p.0) && p.2.len() == 0 && !p.3 && p.1 && p.4 == "/"@ && !p.5 && !p.6
        && !text.contains('*')
}

/// The message for a field whose value an outside parser refused.
pub open spec fn invalid_field_message(field: Seq<char>, error: Seq<char>) -> Seq<char> {
    field + " is invalid: "@ + error
}

fn invalid_field(field: &str, error: &str) -> (e: ConfigLoadError)
    ensures
        e == ConfigLoadError::Validation(e->Validation_0),
        e->Validation_0@ == invalid_field_message(field@, error@),
{
    ConfigLoadError::Validation(concat_str(concat_str(field, " is invalid: ").as_str(), error))
}

fn is_http_scheme(scheme: &str) -> (http: bool)
    ensures
        http == http_scheme(scheme@),
{
    str_equal(scheme, "http") || str_equal(scheme, "https")
}

fn contains_char(text: &str, c: char) -> (found: bool)
    ensures
        found == text@.contains(c),
{
    let chars = chars_of(text);
    let mut i: usize = 0;
    while i < chars.len()
        invariant
            chars@ == text@,
            i <= chars@.len(),
            forall|j: int| 0 <= j < i ==> chars@[j] != c,
        decreases chars@.len() - i,
    {
        if chars[i] == c {
            return true;
        }
        i += 1;
    }
    false
}

/// The message refusing an endpoint, or `None` for an acceptable one.
pub open spec fn endpoint_error(field: Seq<char>, endpoint: Seq<char>) -> Option<Seq<char>> {
    match url_parse(endpoint) {
        Err(m) => Some(invalid_field_message(field, m)),
        Ok(p) => if valid_endpoint_parts(p) {
            None
        } else {
            Some(field + " must be an HTTP or HTTPS URL without credentials"@)
        },
    }
}

/// A provider endpoint must be an HTTP or HTTPS URL with a host and without credentials.
pub fn validate_http_endpoint(field: &str, endpoint: &str) -> (result: Result<(), ConfigLoadError>)
    ensures
        match endpoint_error(field@, endpoint@) {
            None => result is Ok,
            Some(m) => result is Err && result->Err_0 is Validation
                && result->Err_0->Validation_0@ == m,
        },
        match url_parse(endpoint@) {
            Err(m) => result == Err::<(), ConfigLoadError>(ConfigLoadError::Validation(
                result->Err_0->Validation_0,
            )) && result->Err_0->Validation_0@ == invalid_field_message(field@, m),
            Ok(p) => if valid_endpoint_parts(p) {
                result is Ok
            } else {
                result is Err && result->Err_0 == ConfigLoadError::Validation(
                    result->Err_0->Validation_0,
                ) && result->Err_0->Validation_0@ == field@
                    + " must be an HTTP or HTTPS URL without credentials"@
            },
        },
{
    let parsed = match parse_url(endpoint) {
        Ok(p) => p,
        Err(e) => return Err(invalid_field(field, e.as_str())),
    };
    if !is_http_scheme(parsed.scheme.as_str()) || !parsed.has_host
        || !parsed.username.as_str().is_empty() || parsed.has_password {
        return Err(
            ConfigLoadError::Validation(
                concat_str(field, " must be an HTTP or HTTPS URL without credentials"),
            ),
        );
    }
    Ok(())
}

/// Whether `origin` is an acceptable browser origin.
pub fn origin_acceptable(origin: &str) -> (acceptable: Result<bool, String>)
    ensures
        match url_parse(origin@) {
            Err(m) => acceptable is Err && acceptable->Err_0@ == m,
            Ok(p) => acceptable == Ok::<bool, String>(valid_origin_parts(origin@, p)),
        },
{
    let parsed = match parse_url(origin) {
        Ok(p) => p,
        Err(e) => return Err(e),
    };
    let root_path = str_equal(parsed.path.as_str(), "/");
    Ok(
        is_http_scheme(parsed.scheme.as_str()) && parsed.username.as_str().is_empty()
            && !parsed.has_password && parsed.has_host && root_path && !parsed.has_query
            && !parsed.has_fragment && !contains_char(origin, '*'),
    )
}

/// The message refusing an allowed origin, or `None` for an acceptable one.
pub open spec fn origin_error(origin: Seq<char>) -> Option<Seq<char>> {
    match url_parse(origin) {
        Err(m) => Some(invalid_field_message("server.allowed_origins"@, m)),
        Ok(p) => if valid_origin_parts(origin, p) {
            None
        } else {
            Some("server.allowed_origins contains an invalid origin"@)
        },
    }
}

/// The first refusal among allowed origins, in order.
pub open spec fn first_origin_error(origins: Seq<Seq<char>>) -> Option<Seq<char>>
    decreases origins.len(),
{
    if origins.len() == 0 {
        None
    } else {
        match origin_error(origins[0]) {
            Some(m) => Some(m),
            None => first_origin_error(origins.drop_first()),
        }
    }
}

/// Every allowed origin must be an exact HTTP or HTTPS origin.
pub fn validate_allowed_origins(origins: &Vec<String>) -> (result: Result<(), ConfigLoadError>)
    ensures
        result is Ok <==> forall|i: int|
            0 <= i < origins@.len() ==> #[trigger] url_parse(origins@[i]@) is Ok
                && valid_origin_parts(origins@[i]@, url_parse(origins@[i]@)->Ok_0),
        match first_origin_error(origins@.map_values(|o: String| o@)) {
            None => result is Ok,
            Some(m) => result is Err && result->Err_0 is Validation && result->Err_0->Validation_0@ == m,
        },
{
    let ghost all = origins@.map_values(|o: String| o@);
    assert(all.skip(0) =~= all);
    let mut i: usize = 0;
    while i < origins.len()
        invariant
            i <= origins@.len(),
            all == origins@.map_values(|o: String| o@),
            first_origin_error(all) == first_origin_error(all.skip(i as int)),
            forall|j: int|
                0 <= j < i ==> #[trigger] url_parse(origins@[j]@) is Ok && valid_origin_parts(
                    origins@[j]@,
                    url_parse(origins@[j]@)->Ok_0,
                ),
        decreases origins@.len() - i,
    {
        assert(all.skip(i as int)[0] == origins@[i as int]@);
        assert(all.skip(i as int).drop_first() =~= all.skip(i + 1));
        match origin_acceptable(origins[i].as_str()) {
            Ok(true) => {},
            Ok(false) => {
                return Err(
                    ConfigLoadError::Validation(
                        "server.allowed_origins contains an invalid origin".to_owned(),
                    ),
                );
            },
            Err(e) => return Err(invalid_field("server.allowed_origins", e.as_str())),
        }
        i += 1;
    }
    assert(all.skip(i as int) =~= Seq::<Seq<char>>::empty());
    Ok(())
}

/// What `http::HeaderName` parsing gives for a text: the normalized name, or
/// the error message.
pub uninterp spec fn header_name_parse(input: Seq<char>) -> Result<Seq<char>, Seq<char>>;

/// Parses a header name with `http::HeaderName`; the contract names the result
/// through `header_name_parse`.
#[verifier::external_body]
pub(crate) fn parse_header_name(input: &str) -> (parsed: Result<String, String>)
    ensures
        match parsed {
            Ok(n) => header_name_parse(input@) == Ok::<Seq<char>, Seq<char>>(n@),
            Err(e) => header_name_parse(input@) == Err::<Seq<char>, Seq<char>>(e@),
        },
{
    match input.parse::<http::HeaderName>() {
        Ok(name) => Ok(name.as_str().to_owned()),
        Err(error) => Err(error.to_string()),
    }
}

/// What `ipnet::IpNet` parsing gives for a text: the network written back
/// with `Display`, or the error message.
pub uninterp spec fn ip_net_parse(input: Seq<char>) -> Result<Seq<char>, Seq<char>>;

/// Parses an address range with `ipnet::IpNet` and writes the network back
/// with `Display`; the contract names the outcome through `ip_net_parse`.
#[verifier::external_body]
pub(crate) fn parse_ip_net(input: &str) -> (parsed: Result<String, String>)
    ensures
        match parsed {
            Ok(n) => ip_net_parse(input@) == Ok::<Seq<char>, Seq<char>>(n@),
            Err(e) => ip_net_parse(input@) == Err::<Seq<char>, Seq<char>>(e@),
        },
{
    match input.parse::<ipnet::IpNet>() {
        Ok(network) => Ok(network.to_string()),
        Err(error) => Err(error.to_string()),
    }
}

/// A header that carries credentials and may never name a client address.
pub open spec fn credential_header(name: Seq<char>) -> bool {
    name == "authorization"@ || name == "cookie"@ || name == "proxy-authorization"@
}

pub fn is_credential_header(name: &str) -> (credential: bool)
    ensures
        credential == credential_header(name@),
{
    str_equal(name, "authorization") || str_equal(name, "cookie") || str_equal(
        name,
        "proxy-authorization",
    )
}

/// The first refusal among address ranges, in order.
pub open spec fn first_range_error(ranges: Seq<Seq<char>>) -> Option<Seq<char>>
    decreases ranges.len(),
{
    if ranges.len() == 0 {
        None
    } else {
        match ip_net_parse(ranges[0]) {
            Err(m) => Some(invalid_field_message("server.trusted_proxy.ranges"@, m)),
            Ok(_) => first_range_error(ranges.drop_first()),
        }
    }
}

/// The refusal of a trusted proxy setting, or `None` when it is acceptable.
pub open spec fn trusted_proxy_error(header: Seq<char>, ranges: Seq<Seq<char>>) -> Option<Seq<char>> {
    match header_name_parse(header) {
        Err(m) => Some(invalid_field_message("server.trusted_proxy.header"@, m)),
        Ok(h) => if credential_header(h) {
            Some("server.trusted_proxy.header must not be a credential header"@)
        } else {
            first_range_error(ranges)
        },
    }
}

/// The trusted proxy header must be a valid, non-credential header name, and
/// every range a valid address range.
pub fn validate_trusted_proxy(config: &TrustedProxyConfig) -> (result: Result<(), ConfigLoadError>)
    ensures
        result is Ok <==> ({
            &&& header_name_parse(config.header@) is Ok
            &&& !credential_header(header_name_parse(config.header@)->Ok_0)
            &&& forall|i: int|
                0 <= i < config.ranges@.len() ==> #[trigger] ip_net_parse(config.ranges@[i]@) is Ok
        }),
        match trusted_proxy_error(config.header@, config.ranges@.map_values(|r: String| r@)) {
            None => result is Ok,
            Some(m) => result is Err && result->Err_0 is Validation && result->Err_0->Validation_0@ == m,
        },
{
    let header = match parse_header_name(config.header.as_str()) {
        Ok(h) => h,
        Err(e) => return Err(invalid_field("server.trusted_proxy.header", e.as_str())),
    };
    if is_credential_header(header.as_str()) {
        return Err(
            ConfigLoadError::Validation(
                "server.trusted_proxy.header must not be a credential header".to_owned(),
            ),
        );
    }
    let ghost all = config.ranges@.map_values(|r: String| r@);
    assert(all.skip(0) =~= all);
    let mut i: usize = 0;
    while i < config.ranges.len()
        invariant
            i <= config.ranges@.len(),
            all == config.ranges@.map_values(|r: String| r@),
            first_range_error(all) == first_range_error(all.skip(i as int)),
            header_name_parse(config.header@) == Ok::<Seq<char>, Seq<char>>(header@),
            !credential_header(header@),
            forall|j: int| 0 <= j < i ==> #[trigger] ip_net_parse(config.ranges@[j]@) is Ok,
        decreases config.ranges@.len() - i,
    {
        assert(all.skip(i as int)[0] == config.ranges@[i as int]@);
        assert(all.skip(i as int).drop_first() =~= all.skip(i + 1));
        match parse_ip_net(config.ranges[i].as_str()) {
            Ok(_) => {},
            Err(e) => return Err(invalid_field("server.trusted_proxy.ranges", e.as_str())),
        }
        i += 1;
    }
    assert(all.skip(i as int) =~= Seq::<Seq<char>>::empty());
    Ok(())
}

/// The enabled providers must be listed and known.
pub fn validate_enabled_providers(enabled: &Vec<String>) -> (result: Result<(), ConfigLoadError>)
    ensures
        result is Ok <==> enabled@.len() > 0 && forall|i: int|
            0 <= i < enabled@.len() ==> known_provider(#[trigger] enabled@[i]@),
{
    if enabled.len() == 0 {
        return Err(ConfigLoadError::Validation("enabled_providers must not be empty".to_owned()));
    }
    let mut i: usize = 0;
    while i < enabled.len()
        invariant
            i <= enabled@.len(),
            forall|j: int| 0 <= j < i ==> known_provider(#[trigger] enabled@[j]@),
        decreases enabled@.len() - i,
    {
        if !is_known_provider(enabled[i].as_str()) {
            let message = concat_str(
                concat_str("unknown provider `", enabled[i].as_str()).as_str(),
                "`",
            );
            return Err(ConfigLoadError::Validation(message));
        }
        i += 1;
    }
    Ok(())
}

/// The first refusal among endpoints given with their field names, in order.
pub open spec fn first_endpoint_error(endpoints: Seq<(Seq<char>, Seq<char>)>) -> Option<Seq<char>>
    decreases endpoints.len(),
{
    if endpoints.len() == 0 {
        None
    } else {
        match endpoint_error(endpoints[0].0, endpoints[0].1) {
            Some(m) => Some(m),
            None => first_endpoint_error(endpoints.drop_first()),
        }
    }
}

/// The provider endpoints under their configuration field names, in the order
/// they are checked.
pub open spec fn provider_endpoints(providers: crate::config::ProvidersConfig) -> Seq<
    (Seq<char>, Seq<char>),
> {
    seq![
        ("providers.tmdb.base_url"@, providers.tmdb.base_url_view()),
        ("providers.bangumi.base_url"@, providers.bangumi.base_url@),
        ("providers.anilist.base_url"@, providers.anilist.base_url_view()),
        ("providers.musicbrainz.base_url"@, providers.musicbrainz.base_url@),
        ("providers.openlibrary.base_url"@, providers.openlibrary.base_url@),
        ("providers.openlibrary.cover_base_url"@, providers.openlibrary.cover_base_url@),
    ]
}

/// Every provider endpoint must be an HTTP or HTTPS URL with a host and
/// without credentials; the first one that is not is reported.
pub fn validate_provider_endpoints(providers: &crate::config::ProvidersConfig) -> (result: Result<
    (),
    ConfigLoadError,
>)
    ensures
        match first_endpoint_error(provider_endpoints(*providers)) {
            None => result is Ok,
            Some(m) => result is Err && result->Err_0 is Validation
                && result->Err_0->Validation_0@ == m,
        },
{
    let fields: Vec<(&str, &str)> = vec![
        ("providers.tmdb.base_url", providers.tmdb.base_url_str()),
        ("providers.bangumi.base_url", providers.bangumi.base_url.as_str()),
        ("providers.anilist.base_url", providers.anilist.base_url_str()),
        ("providers.musicbrainz.base_url", providers.musicbrainz.base_url.as_str()),
        ("providers.openlibrary.base_url", providers.openlibrary.base_url.as_str()),
        ("providers.openlibrary.cover_base_url", providers.openlibrary.cover_base_url.as_str()),
    ];
    let ghost all = provider_endpoints(*providers);
    assert(fields@.map_values(|f: (&str, &str)| (f.0@, f.1@)) =~= all);
    let mut i: usize = 0;
    assert(all.skip(0) =~= all);
    while i < fields.len()
        invariant
            i <= fields@.len(),
            fields@.len() == all.len(),
            all == provider_endpoints(*providers),
            forall|j: int| 0 <= j < fields@.len() ==> (#[trigger] fields@[j]).0@ == all[j].0 && fields@[j].1@ == all[j].1,
            first_endpoint_error(all) == first_endpoint_error(all.skip(i as int)),
        decreases fields@.len() - i,
    {
        let (field, endpoint) = fields[i];
        assert(all.skip(i as int)[0] == all[i as int]);
        assert(all.skip(i as int).drop_first() =~= all.skip(i + 1));
        match validate_http_endpoint(field, endpoint) {
            Ok(()) => {},
            Err(e) => return Err(e),
        }
        i += 1;
    }
    assert(all.skip(i as int) =~= Seq::<(Seq<char>, Seq<char>)>::empty());
    Ok(())
}

/// A confidence threshold found wrong where floating point is handled.
#[derive(Debug, Clone, Copy, PartialEq, Eq, Structural)]
pub enum ConfidenceProblem {
    AutoAcceptOutOfRange,
    ReviewOutOfRange,
    ReviewExceedsAutoAccept,
}

pub open spec fn confidence_message(problem: ConfidenceProblem) -> Seq<char> {
    match problem {
        ConfidenceProblem::AutoAcceptOutOfRange => "auto_accept_confidence must be finite and between 0 and 1"@,
        ConfidenceProblem::ReviewOutOfRange => "review_confidence must be finite and between 0 and 1"@,
        ConfidenceProblem::ReviewExceedsAutoAccept => "review_confidence must not exceed auto_accept_confidence"@,
    }
}

/// What outside parsers said of parts of the configuration: the first
/// invalid locale tag's error, a confidence problem, each enabled provider
/// name's identifier error, the first provider client refusing its endpoint
/// (field and error), the proxy client's error, and the log filter's error.
pub struct ExternalChecks {
    pub locale_error: Option<String>,
    pub confidence: Option<ConfidenceProblem>,
    pub provider_id_errors: Vec<Option<String>>,
    pub provider_client_error: Option<(String, String)>,
    pub proxy_error: Option<String>,
    pub logging_filter_error: Option<String>,
}

/// The identifier error reported for the provider at position `i`, if any.
pub open spec fn provider_id_error(errors: Seq<Option<String>>, i: int) -> Option<Seq<char>> {
    if 0 <= i < errors.len() && errors[i] is Some {
        Some(errors[i]->Some_0@)
    } else {
        None
    }
}

/// The first refusal among enabled providers from position `from` on.
pub open spec fn first_provider_error(enabled: Seq<Seq<char>>, errors: Seq<Option<String>>, from: int) -> Option<Seq<char>>
    decreases enabled.len() - from,
{
    if from < 0 || from >= enabled.len() {
        None
    } else if provider_id_error(errors, from) is Some {
        provider_id_error(errors, from)
    } else if !known_provider(enabled[from]) {
        Some("unknown provider `"@ + enabled[from] + "`"@)
    } else {
        first_provider_error(enabled, errors, from + 1)
    }
}

pub open spec fn optional_text(value: Option<&str>) -> Option<Seq<char>> {
    match value {
        Some(v) => Some(v@),
        None => None,
    }
}

/// The first problem of a configuration, in the order the checks run.
pub open spec fn config_error_spec(
    locales_empty: bool,
    timeout_seconds: u64,
    enabled: Seq<Seq<char>>,
    worker_count: usize,
    tmdb_reference: Option<Seq<char>>,
    anilist_reference: Option<Seq<char>>,
    endpoints: Seq<(Seq<char>, Seq<char>)>,
    origins: Seq<Seq<char>>,
    proxy_header: Seq<char>,
    proxy_ranges: Seq<Seq<char>>,
    external: ExternalChecks,
) -> Option<Seq<char>> {
    if locales_empty {
        Some("preferred_locales must not be empty"@)
    } else if external.locale_error is Some {
        Some("preferred_locales contains invalid BCP 47 tag: "@ + external.locale_error->Some_0@)
    } else if timeout_seconds == 0 {
        Some("timeout_seconds must be greater than zero"@)
    } else if external.confidence is Some {
        Some(confidence_message(external.confidence->Some_0))
    } else if enabled.len() == 0 {
        Some("enabled_providers must not be empty"@)
    } else if first_provider_error(enabled, external.provider_id_errors@, 0) is Some {
        first_provider_error(enabled, external.provider_id_errors@, 0)
    } else if worker_count == 0 {
        Some("server.worker_count must be greater than zero"@)
    } else if tmdb_reference is Some && !valid_reference(tmdb_reference->Some_0) {
        Some(reference_message("providers.tmdb.api_token_env"@))
    } else if anilist_reference is Some && !valid_reference(anilist_reference->Some_0) {
        Some(reference_message("providers.anilist.access_token_env"@))
    } else if first_endpoint_error(endpoints) is Some {
        first_endpoint_error(endpoints)
    } else if external.provider_client_error is Some {
        Some(invalid_field_message(
            external.provider_client_error->Some_0.0@,
            external.provider_client_error->Some_0.1@,
        ))
    } else if external.proxy_error is Some {
        Some(invalid_field_message("proxy"@, external.proxy_error->Some_0@))
    } else if first_origin_error(origins) is Some {
        first_origin_error(origins)
    } else if trusted_proxy_error(proxy_header, proxy_ranges) is Some {
        trusted_proxy_error(proxy_header, proxy_ranges)
    } else if external.logging_filter_error is Some {
        Some(invalid_field_message("logging.filter"@, external.logging_filter_error->Some_0@))
    } else {
        None
    }
}

fn message_error(message: String) -> (e: ConfigLoadError)
    ensures
        e is Validation && e->Validation_0@ == message@,
{
    ConfigLoadError::Validation(message)
}

/// Checks a whole configuration and reports its first problem.
pub fn validate_config(
    locales_empty: bool,
    timeout_seconds: u64,
    enabled: &Vec<String>,
    worker_count: usize,
    tmdb_reference: Option<&str>,
    anilist_reference: Option<&str>,
    providers: &ProvidersConfig,
    origins: &Vec<String>,
    trusted_proxy: &TrustedProxyConfig,
    external: &ExternalChecks,
) -> (result: Result<(), ConfigLoadError>)
    ensures
        match config_error_spec(
            locales_empty,
            timeout_seconds,
            enabled@.map_values(|p: String| p@),
            worker_count,
            optional_text(tmdb_reference),
            optional_text(anilist_reference),
            provider_endpoints(*providers),
            origins@.map_values(|o: String| o@),
            trusted_proxy.header@,
            trusted_proxy.ranges@.map_values(|r: String| r@),
            *external,
        ) {
            None => result is Ok,
            Some(m) => result is Err && result->Err_0 is Validation && result->Err_0->Validation_0@ == m,
        },
{
    if locales_empty {
        return Err(message_error("preferred_locales must not be empty".to_owned()));
    }
    match &external.locale_error {
        Some(e) => return Err(message_error(concat_str("preferred_locales contains invalid BCP 47 tag: ", e.as_str()))),
        None => {},
    }
    if timeout_seconds == 0 {
        return Err(message_error("timeout_seconds must be greater than zero".to_owned()));
    }
    match external.confidence {
        Some(ConfidenceProblem::AutoAcceptOutOfRange) => return Err(message_error("auto_accept_confidence must be finite and between 0 and 1".to_owned())),
        Some(ConfidenceProblem::ReviewOutOfRange) => return Err(message_error("review_confidence must be finite and between 0 and 1".to_owned())),
        Some(ConfidenceProblem::ReviewExceedsAutoAccept) => return Err(message_error("review_confidence must not exceed auto_accept_confidence".to_owned())),
        None => {},
    }
    if enabled.len() == 0 {
        return Err(message_error("enabled_providers must not be empty".to_owned()));
    }
    let ghost names = enabled@.map_values(|p: String| p@);
    let ghost errors = external.provider_id_errors@;
    let mut i: usize = 0;
    while i < enabled.len()
        invariant
            i <= enabled@.len(),
            names == enabled@.map_values(|p: String| p@),
            errors == external.provider_id_errors@,
            first_provider_error(names, errors, 0) == first_provider_error(names, errors, i as int),
            !locales_empty,
            external.locale_error is None,
            timeout_seconds > 0,
            external.confidence is None,
            enabled@.len() > 0,
        decreases enabled@.len() - i,
    {
        assert(names[i as int] == enabled@[i as int]@);
        if i < external.provider_id_errors.len() {
            match &external.provider_id_errors[i] {
                Some(e) => return Err(message_error(e.clone())),
                None => {},
            }
        }
        if !is_known_provider(enabled[i].as_str()) {
            let message = concat_str(concat_str("unknown provider `", enabled[i].as_str()).as_str(), "`");
            return Err(message_error(message));
        }
        i += 1;
    }
    if worker_count == 0 {
        return Err(message_error("server.worker_count must be greater than zero".to_owned()));
    }
    match validate_secret_reference("providers.tmdb.api_token_env", tmdb_reference) {
        Ok(()) => {},
        Err(e) => return Err(e),
    }
    match validate_secret_reference("providers.anilist.access_token_env", anilist_reference) {
        Ok(()) => {},
        Err(e) => return Err(e),
    }
    match validate_provider_endpoints(providers) {
        Ok(()) => {},
        Err(e) => return Err(e),
    }
    match &external.provider_client_error {
        Some((field, error)) => return Err(invalid_field(field.as_str(), error.as_str())),
        None => {},
    }
    match &external.proxy_error {
        Some(error) => return Err(invalid_field("proxy", error.as_str())),
        None => {},
    }
    match validate_allowed_origins(origins) {
        Ok(()) => {},
        Err(e) => return Err(e),
    }
    match validate_trusted_proxy(trusted_proxy) {
        Ok(()) => {},
        Err(e) => return Err(e),
    }
    match &external.logging_filter_error {
        Some(error) => return Err(invalid_field("logging.filter", error.as_str())),
        None => {},
    }
    Ok(())
}

} // verus!
