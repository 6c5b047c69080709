//! The validated settings of the HTTP server and the rules for reading them
//! from the environment, plus the caching rule for the web front end.
use vstd::prelude::*;

use crate::auth_policy::{
    AuthConfigError, ascending_texts, normalize_origins, normalized_origins, origin_valid, texts_view,
};
use crate::fs_policy::{FsPolicy, FsPolicyError};
use crate::network_policy::{TrustedProxyError, TrustedProxyPolicy};
use crate::paths::{Component, components, components_spec, file_name, file_name_spec, file_stem, stem_spec};
use crate::text::{chars_of, csv, csv_spec, str_equal};

verus! {

broadcast use vstd::string::group_string_axioms;

/// Why server settings were refused.
#[derive(Debug)]
pub enum ServerConfigError {
    MissingMediaRoots,
    InvalidBind { value: String },
    InvalidEnvironment { name: &'static str },
    InvalidBoolean { name: &'static str, value: String },
    EmptyDatabasePath,
    IncompleteTrustedProxy,
    InvalidWorkerCount,
    Authentication(AuthConfigError),
    FilesystemPolicy(FsPolicyError),
    TrustedProxy(TrustedProxyError),
}

/// The default database file, relative to the working directory.
pub const DEFAULT_DATABASE_PATH: &'static str = "fixer.sqlite3";

/// The default number of scrape workers.
pub const DEFAULT_WORKER_COUNT: usize = 2;

/// A server environment switch accepts exactly `true` or `false`.
pub fn parse_bool(name: &'static str, value: &str) -> (parsed: Result<bool, ServerConfigError>)
    ensures
        value@ == "true"@ ==> parsed is Ok && parsed->Ok_0,
        value@ == "false"@ ==> parsed is Ok && !parsed->Ok_0,
        value@ != "true"@ && value@ != "false"@ ==> parsed is Err && parsed->Err_0 is InvalidBoolean
            && parsed->Err_0->InvalidBoolean_name == name && parsed->Err_0->InvalidBoolean_value@
            == value@,
{
    proof {
        reveal_strlit("true");
        reveal_strlit("false");
        assert("true"@.len() != "false"@.len());
    }
    if str_equal(value, "true") {
        Ok(true)
    } else if str_equal(value, "false") {
        Ok(false)
    } else {
        Err(ServerConfigError::InvalidBoolean { name, value: value.to_owned() })
    }
}

/// The values of a comma-separated setting: trimmed, empty ones dropped.
pub fn csv_values(value: &str) -> (values: Vec<String>)
    ensures
        values@.map_values(|v: String| v@) == csv_spec(value@),
{
    csv(value)
}

/// Trusted proxy ranges and their header come together or not at all; the
/// ranges are a comma-separated list.
pub fn trusted_proxy_settings(ranges: Option<&str>, header: Option<&str>) -> (result: Result<
    Option<(Vec<String>, String)>,
    ServerConfigError,
>)
    ensures
        ranges is None && header is None ==> result is Ok && result->Ok_0 is None,
        ranges is Some && header is Some ==> result is Ok && result->Ok_0 is Some
            && result->Ok_0->Some_0.0@.map_values(|v: String| v@) == csv_spec(ranges->Some_0@)
            && result->Ok_0->Some_0.1@ == header->Some_0@,
        ranges is Some != header is Some ==> result is Err && result->Err_0 is IncompleteTrustedProxy,
{
    match (ranges, header) {
        (None, None) => Ok(None),
        (Some(r), Some(h)) => Ok(Some((csv_values(r), h.to_owned()))),
        _ => Err(ServerConfigError::IncompleteTrustedProxy),
    }
}

/// Validated network, authentication, filesystem and persistence settings.
/// The bind address is kept as the text that was validated as a socket
/// address.
pub struct ServerConfig {
    bind_addr: String,
    database_path: String,
    media_policy: Option<FsPolicy>,
    https_termination: bool,
    allowed_origins: Vec<String>,
    trusted_proxy_policy: TrustedProxyPolicy,
    worker_count: usize,
}

impl ServerConfig {
    pub closed spec fn bind_view(&self) -> Seq<char> {
        self.bind_addr@
    }

    pub closed spec fn database_view(&self) -> Seq<char> {
        self.database_path@
    }

    pub closed spec fn has_media_policy(&self) -> bool {
        self.media_policy is Some
    }

    pub closed spec fn https_view(&self) -> bool {
        self.https_termination
    }

    pub closed spec fn origins_view(&self) -> Seq<Seq<char>> {
        texts_view(self.allowed_origins@)
    }

    pub closed spec fn proxy_enabled(&self) -> bool {
        self.trusted_proxy_policy.header_view() is Some
    }

    pub closed spec fn workers_view(&self) -> usize {
        self.worker_count
    }

    /// Settings for a bind address, with the defaults for everything else.
    pub fn new(bind_addr: String) -> (config: Self)
        ensures
            config.bind_view() == bind_addr@,
            config.database_view() == DEFAULT_DATABASE_PATH@,
            !config.has_media_policy(),
            !config.https_view(),
            config.origins_view().len() == 0,
            !config.proxy_enabled(),
            config.workers_view() == DEFAULT_WORKER_COUNT,
    {
        let config = ServerConfig {
            bind_addr,
            database_path: DEFAULT_DATABASE_PATH.to_owned(),
            media_policy: None,
            https_termination: false,
            allowed_origins: Vec::new(),
            trusted_proxy_policy: TrustedProxyPolicy::disabled(),
            worker_count: DEFAULT_WORKER_COUNT,
        };
        assert(config.origins_view() =~= Seq::<Seq<char>>::empty());
        config
    }

    /// The database path must not be empty.
    pub fn with_database_path(self, path: String) -> (result: Result<Self, ServerConfigError>)
        ensures
            path@.len() == 0 ==> result is Err && result->Err_0 is EmptyDatabasePath,
            path@.len() > 0 ==> result is Ok && result->Ok_0.database_view() == path@
                && result->Ok_0.bind_view() == self.bind_view() && result->Ok_0.https_view()
                == self.https_view() && result->Ok_0.origins_view() == self.origins_view()
                && result->Ok_0.workers_view() == self.workers_view()
                && result->Ok_0.has_media_policy() == self.has_media_policy(),
    {
        if path.as_str().is_empty() {
            return Err(ServerConfigError::EmptyDatabasePath);
        }
        Ok(ServerConfig { database_path: path, ..self })
    }

    /// Restricts media access to a policy built from the canonical roots.
    pub fn with_media_policy(self, policy: Result<FsPolicy, FsPolicyError>) -> (result: Result<
        Self,
        ServerConfigError,
    >)
        ensures
            policy is Err ==> result is Err && result->Err_0 is FilesystemPolicy,
            policy is Ok ==> result is Ok && result->Ok_0.has_media_policy()
                && result->Ok_0.database_view() == self.database_view(),
    {
        match policy {
            Ok(p) => Ok(ServerConfig { media_policy: Some(p), ..self }),
            Err(e) => Err(ServerConfigError::FilesystemPolicy(e)),
        }
    }

    pub fn with_https_termination(self, enabled: bool) -> (config: Self)
        ensures
            config.https_view() == enabled,
            config.database_view() == self.database_view(),
            config.origins_view() == self.origins_view(),
            config.has_media_policy() == self.has_media_policy(),
    {
        ServerConfig { https_termination: enabled, ..self }
    }

    /// Replaces the allowed browser origins with their normalized forms.
    pub fn with_allowed_origins(self, origins: &Vec<String>) -> (result: Result<
        Self,
        ServerConfigError,
    >)
        ensures
            match result {
                Ok(config) => {
                    &&& forall|i: int| 0 <= i < origins@.len() ==> origin_valid(#[trigger] origins@[i]@)
                    &&& ascending_texts(config.origins_view())
                    &&& config.origins_view().no_duplicates()
                    &&& config.origins_view().to_set() == normalized_origins(texts_view(origins@))
                    &&& config.https_view() == self.https_view()
                },
                Err(e) => e is Authentication && exists|i: int|
                    0 <= i < origins@.len() && !origin_valid(#[trigger] origins@[i]@),
            },
    {
        match normalize_origins(origins) {
            Ok(allowed) => Ok(ServerConfig { allowed_origins: allowed, ..self }),
            Err(e) => Err(ServerConfigError::Authentication(e)),
        }
    }

    /// Trusts one client-address header from the given proxy ranges.
    pub fn with_trusted_proxy(self, ranges: &Vec<String>, client_ip_header: &str) -> (result: Result<
        Self,
        ServerConfigError,
    >)
        ensures
            match result {
                Ok(config) => config.proxy_enabled() && config.https_view() == self.https_view(),
                Err(e) => e is TrustedProxy,
            },
    {
        match TrustedProxyPolicy::new(ranges, client_ip_header) {
            Ok(policy) => {
                let enabled = policy.is_enabled();
                if !enabled {
                    return Err(ServerConfigError::TrustedProxy(TrustedProxyError::NoRanges));
                }
                Ok(ServerConfig { trusted_proxy_policy: policy, ..self })
            },
            Err(e) => Err(ServerConfigError::TrustedProxy(e)),
        }
    }

    /// The number of scrape workers must be positive.
    pub fn with_worker_count(self, count: usize) -> (result: Result<Self, ServerConfigError>)
        ensures
            count == 0 ==> result is Err && result->Err_0 is InvalidWorkerCount,
            count > 0 ==> result is Ok && result->Ok_0.workers_view() == count
                && result->Ok_0.https_view() == self.https_view()
                && result->Ok_0.database_view() == self.database_view(),
    {
        if count == 0 {
            return Err(ServerConfigError::InvalidWorkerCount);
        }
        Ok(ServerConfig { worker_count: count, ..self })
    }

    /// Serving requires media roots.
    pub fn validate_for_serve(&self) -> (result: Result<(), ServerConfigError>)
        ensures
            result is Ok <==> self.has_media_policy(),
            result is Err ==> result->Err_0 is MissingMediaRoots,
    {
        if self.media_policy.is_none() {
            return Err(ServerConfigError::MissingMediaRoots);
        }
        Ok(())
    }

    pub fn bind_addr(&self) -> (addr: &str)
        ensures
            addr@ == self.bind_view(),
    {
        self.bind_addr.as_str()
    }

    pub fn database_path(&self) -> (path: &str)
        ensures
            path@ == self.database_view(),
    {
        self.database_path.as_str()
    }

    pub fn media_policy(&self) -> (policy: Option<&FsPolicy>)
        ensures
            policy is Some == self.has_media_policy(),
    {
        match &self.media_policy {
            Some(p) => Some(p),
            None => None,
        }
    }

    pub fn https_termination(&self) -> (enabled: bool)
        ensures
            enabled == self.https_view(),
    {
        self.https_termination
    }

    pub fn allowed_origins(&self) -> (origins: &Vec<String>)
        ensures
            texts_view(origins@) == self.origins_view(),
    {
        &self.allowed_origins
    }

    pub fn trusted_proxy_policy(&self) -> (policy: &TrustedProxyPolicy)
        ensures
            (policy.header_view() is Some) == self.proxy_enabled(),
    {
        &self.trusted_proxy_policy
    }

    pub fn worker_count(&self) -> (count: usize)
        ensures
            count == self.workers_view(),
    {
        self.worker_count
    }
}

/// An alphanumeric ASCII character, `_` or `-`.
pub open spec fn hash_char(c: char) -> bool {
    ('a' <= c <= 'z') || ('A' <= c <= 'Z') || ('0' <= c <= '9') || c == '_' || c == '-'
}

/// A built asset whose name carries a content hash: under `/assets/`, with a
/// file stem ending in `-` and eight hash characters. Every such character is
/// a single byte, so this reads the stem's last nine characters.
pub open spec fn content_hashed_asset(path: Seq<char>) -> bool {
    let prefix = "/assets/"@;
    if !(path.len() >= prefix.len() && path.take(prefix.len() as int) == prefix) {
        false
    } else {
        match file_name_spec(components_spec(path)) {
            None => false,
            Some(name) => {
                let stem = stem_spec(name);
                stem.len() >= 9 && stem[stem.len() - 9] == '-' && forall|i: int|
                    stem.len() - 8 <= i < stem.len() ==> hash_char(#[trigger] stem[i])
            },
        }
    }
}

fn has_assets_prefix(path: &str) -> (prefixed: bool)
    ensures
        prefixed == (path@.len() >= "/assets/"@.len() && path@.take("/assets/"@.len() as int)
            == "/assets/"@),
{
    let chars = chars_of(path);
    let prefix = chars_of("/assets/");
    if chars.len() < prefix.len() {
        return false;
    }
    let mut i: usize = 0;
    while i < prefix.len()
        invariant
            chars@ == path@,
            prefix@ == "/assets/"@,
            prefix@.len() <= chars@.len(),
            i <= prefix@.len(),
            forall|j: int| 0 <= j < i ==> chars@[j] == prefix@[j],
        decreases prefix@.len() - i,
    {
        if chars[i] != prefix[i] {
            assert(path@.take(prefix@.len() as int)[i as int] != prefix@[i as int]);
            return false;
        }
        i += 1;
    }
    assert(path@.take(prefix@.len() as int) =~= prefix@);
    true
}

/// Whether a requested path is a content-hashed asset that may be cached
/// forever.
pub fn is_content_hashed_asset(path: &str) -> (hashed: bool)
    ensures
        hashed == content_hashed_asset(path@),
{
    if !has_assets_prefix(path) {
        return false;
    }
    let parts = components(path);
    let name = match file_name(&parts) {
        Some(n) => n,
        None => return false,
    };
    let stem_text = file_stem(name.as_str());
    let stem = chars_of(stem_text.as_str());
    let n = stem.len();
    let ghost prefixed = path@.len() >= "/assets/"@.len() && path@.take("/assets/"@.len() as int)
        == "/assets/"@;
    if n < 9 || stem[n - 9] != '-' {
        return false;
    }
    let mut i: usize = n - 8;
    while i < n
        invariant
            n == stem@.len(),
            n >= 9,
            prefixed,
            prefixed == (path@.len() >= "/assets/"@.len() && path@.take("/assets/"@.len() as int)
                == "/assets/"@),
            file_name_spec(components_spec(path@)) == Some(name@),
            stem@ == stem_spec(name@),
            stem@[n - 9] == '-',
            n - 8 <= i <= n,
            forall|j: int| n - 8 <= j < i ==> hash_char(#[trigger] stem@[j]),
        decreases n - i,
    {
        let c = stem[i];
        if !(('a' <= c && c <= 'z') || ('A' <= c && c <= 'Z') || ('0' <= c && c <= '9') || c == '_'
            || c == '-') {
            assert(!hash_char(stem@[i as int]));
            return false;
        }
        i += 1;
    }
    true
}

/// The cache rule for a web response: successful, non-HTML, content-hashed
/// assets are immutable; everything else is revalidated.
pub fn cache_control(success: bool, content_is_html: bool, path: &str) -> (value: &'static str)
    ensures
        (success && !content_is_html && content_hashed_asset(path@)) ==> value@
            == "public, max-age=31536000, immutable"@,
        !(success && !content_is_html && content_hashed_asset(path@)) ==> value@ == "no-cache"@,
{
    if success && !content_is_html && is_content_hashed_asset(path) {
        "public, max-age=31536000, immutable"
    } else {
        "no-cache"
    }
}

} // verus!
