//! Configuration values, their defaults, and the rules that read secrets and
//! legacy settings from the environment.
use vstd::prelude::*;

use crate::env::EnvMap;
use crate::paths::{join_path, join_path_spec};
use crate::text::{
    ascii_lower_spec, ascii_lowercase, chars_of, concat_str, csv, csv_spec, str_equal, trim,
    trim_spec,
};

verus! {

broadcast use vstd::string::group_string_axioms;

#[derive(Debug, Clone, Copy, PartialEq, Eq, Structural)]
pub enum OutputPreset {
    Metadata,
    Full,
}

impl OutputPreset {
    pub fn default() -> (preset: Self)
        ensures
            preset == OutputPreset::Full,
    {
        OutputPreset::Full
    }

    pub fn as_str(self) -> (name: &'static str)
        ensures
            name@ == match self {
                OutputPreset::Metadata => "metadata"@,
                OutputPreset::Full => "full"@,
            },
    {
        match self {
            OutputPreset::Metadata => "metadata",
            OutputPreset::Full => "full",
        }
    }
}

#[derive(Debug, Clone, Copy, PartialEq, Eq, Structural)]
pub enum PlacementPolicy {
    InPlace,
    Symlink,
    Hardlink,
    Copy,
    Reflink,
}

impl PlacementPolicy {
    pub fn default() -> (policy: Self)
        ensures
            policy == PlacementPolicy::InPlace,
    {
        PlacementPolicy::InPlace
    }

    pub fn as_str(self) -> (name: &'static str)
        ensures
            name@ == match self {
                PlacementPolicy::InPlace => "in_place"@,
                PlacementPolicy::Symlink => "symlink"@,
                PlacementPolicy::Hardlink => "hardlink"@,
                PlacementPolicy::Copy => "copy"@,
                PlacementPolicy::Reflink => "reflink"@,
            },
    {
        match self {
            PlacementPolicy::InPlace => "in_place",
            PlacementPolicy::Symlink => "symlink",
            PlacementPolicy::Hardlink => "hardlink",
            PlacementPolicy::Copy => "copy",
            PlacementPolicy::Reflink => "reflink",
        }
    }
}

#[derive(Debug, Clone, Copy, PartialEq, Eq, Structural)]
pub enum ConflictPolicy {
    PreferFirst,
    Review,
    Error,
}

impl ConflictPolicy {
    pub fn default() -> (policy: Self)
        ensures
            policy == ConflictPolicy::Review,
    {
        ConflictPolicy::Review
    }

    pub fn as_str(self) -> (name: &'static str)
        ensures
            name@ == match self {
                ConflictPolicy::PreferFirst => "prefer_first"@,
                ConflictPolicy::Review => "review"@,
                ConflictPolicy::Error => "error"@,
            },
    {
        match self {
            ConflictPolicy::PreferFirst => "prefer_first",
            ConflictPolicy::Review => "review",
            ConflictPolicy::Error => "error",
        }
    }
}

#[derive(Debug, Clone, Copy, PartialEq, Eq, Structural)]
pub enum LoggingFormat {
    Pretty,
    Json,
}

impl LoggingFormat {
    pub fn default() -> (format: Self)
        ensures
            format == LoggingFormat::Pretty,
    {
        LoggingFormat::Pretty
    }
}

/// A secret value; the library never shows it except through `expose_secret`.
#[derive(Clone, PartialEq, Eq)]
pub struct SecretString(String);

impl SecretString {
    pub closed spec fn secret(&self) -> Seq<char> {
        self.0@
    }

    pub fn new(value: String) -> (secret: Self)
        ensures
            secret.secret() == value@,
    {
        SecretString(value)
    }

    pub fn expose_secret(&self) -> (value: &str)
        ensures
            value@ == self.secret(),
    {
        self.0.as_str()
    }

    /// The text shown in place of the secret in diagnostics.
    pub fn redacted(&self) -> (text: &'static str)
        ensures
            text@ == "[REDACTED]"@,
    {
        "[REDACTED]"
    }
}

/// The view of an optional secret.
pub open spec fn secret_view(secret: Option<SecretString>) -> Option<Seq<char>> {
    match secret {
        Some(s) => Some(s.secret()),
        None => None,
    }
}

/// The view of an optional string.
pub open spec fn opt_string_view(value: Option<String>) -> Option<Seq<char>> {
    match value {
        Some(s) => Some(s@),
        None => None,
    }
}

/// The view of an optional borrowed string.
pub open spec fn opt_str_view(value: Option<&str>) -> Option<Seq<char>> {
    match value {
        Some(s) => Some(s@),
        None => None,
    }
}

#[derive(Debug, Clone, PartialEq, Eq)]
pub struct LoggingConfig {
    pub filter: String,
    pub format: LoggingFormat,
}

impl LoggingConfig {
    pub fn default() -> (config: Self)
        ensures
            config.filter@ == "fixer_server=info,tower_http=info"@,
            config.format == LoggingFormat::Pretty,
    {
        LoggingConfig {
            filter: "fixer_server=info,tower_http=info".to_owned(),
            format: LoggingFormat::Pretty,
        }
    }
}

#[derive(Debug, Clone, PartialEq, Eq)]
pub struct TrustedProxyConfig {
    pub ranges: Vec<String>,
    pub header: String,
}

impl TrustedProxyConfig {
    pub fn default() -> (config: Self)
        ensures
            config.ranges@.len() == 0,
            config.header@ == "x-forwarded-for"@,
    {
        TrustedProxyConfig { ranges: Vec::new(), header: "x-forwarded-for".to_owned() }
    }
}

#[derive(Debug, Clone, PartialEq, Eq)]
pub struct EndpointConfig {
    pub base_url: String,
}

impl EndpointConfig {
    pub fn new(base_url: &str) -> (config: Self)
        ensures
            config.base_url@ == base_url@,
    {
        EndpointConfig { base_url: base_url.to_owned() }
    }

    pub fn default() -> (config: Self)
        ensures
            config.base_url@ == ""@,
    {
        EndpointConfig::new("")
    }
}

#[derive(Debug, Clone, PartialEq, Eq)]
pub struct OpenLibraryConfig {
    pub base_url: String,
    pub cover_base_url: String,
}

impl OpenLibraryConfig {
    pub fn default() -> (config: Self)
        ensures
            config.base_url@ == "https://openlibrary.org"@,
            config.cover_base_url@ == "https://covers.openlibrary.org/b/"@,
    {
        OpenLibraryConfig {
            base_url: "https://openlibrary.org".to_owned(),
            cover_base_url: "https://covers.openlibrary.org/b/".to_owned(),
        }
    }
}

#[derive(Clone, PartialEq, Eq)]
pub struct TmdbConfig {
    pub base_url: String,
    pub api_token: Option<SecretString>,
    pub api_token_env: Option<String>,
    resolved_api_token: Option<SecretString>,
}

impl TmdbConfig {
    pub fn default() -> (config: Self)
        ensures
            config.base_url_view() == "https://api.themoviedb.org/3"@,
            config.token_view() is None,
            config.token_env_view() is None,
            config.resolved_view() is None,
    {
        TmdbConfig {
            base_url: "https://api.themoviedb.org/3".to_owned(),
            api_token: None,
            api_token_env: None,
            resolved_api_token: None,
        }
    }

    /// The token found in the environment when the configuration was resolved.
    pub closed spec fn resolved_view(&self) -> Option<Seq<char>> {
        secret_view(self.resolved_api_token)
    }

    pub closed spec fn base_url_view(&self) -> Seq<char> {
        self.base_url@
    }

    /// The configured base URL.
    pub fn base_url_str(&self) -> (url: &str)
        ensures
            url@ == self.base_url_view(),
    {
        self.base_url.as_str()
    }

    pub closed spec fn token_view(&self) -> Option<Seq<char>> {
        secret_view(self.api_token)
    }

    pub closed spec fn token_env_view(&self) -> Option<Seq<char>> {
        opt_string_view(self.api_token_env)
    }

    /// The token to use: the one resolved from the environment, else the configured one.
    pub fn resolved_api_token(&self) -> (token: Option<&str>)
        ensures
            opt_str_view(token) == match self.resolved_view() {
                Some(t) => Some(t),
                None => self.token_view(),
            },
    {
        match &self.resolved_api_token {
            Some(t) => Some(t.expose_secret()),
            None => match &self.api_token {
                Some(t) => Some(t.expose_secret()),
                None => None,
            },
        }
    }
}

#[derive(Clone, PartialEq, Eq)]
pub struct AniListConfig {
    pub base_url: String,
    pub access_token: Option<SecretString>,
    pub access_token_env: Option<String>,
    resolved_access_token: Option<SecretString>,
}

impl AniListConfig {
    pub fn default() -> (config: Self)
        ensures
            config.base_url_view() == "https://graphql.anilist.co"@,
            config.token_view() is None,
            config.token_env_view() is None,
            config.resolved_view() is None,
    {
        AniListConfig {
            base_url: "https://graphql.anilist.co".to_owned(),
            access_token: None,
            access_token_env: None,
            resolved_access_token: None,
        }
    }

    /// The token found in the environment when the configuration was resolved.
    pub closed spec fn resolved_view(&self) -> Option<Seq<char>> {
        secret_view(self.resolved_access_token)
    }

    pub closed spec fn base_url_view(&self) -> Seq<char> {
        self.base_url@
    }

    /// The configured base URL.
    pub fn base_url_str(&self) -> (url: &str)
        ensures
            url@ == self.base_url_view(),
    {
        self.base_url.as_str()
    }

    pub closed spec fn token_view(&self) -> Option<Seq<char>> {
        secret_view(self.access_token)
    }

    pub closed spec fn token_env_view(&self) -> Option<Seq<char>> {
        opt_string_view(self.access_token_env)
    }

    /// The token to use: the one resolved from the environment, else the configured one.
    pub fn resolved_access_token(&self) -> (token: Option<&str>)
        ensures
            opt_str_view(token) == match self.resolved_view() {
                Some(t) => Some(t),
                None => self.token_view(),
            },
    {
        match &self.resolved_access_token {
            Some(t) => Some(t.expose_secret()),
            None => match &self.access_token {
                Some(t) => Some(t.expose_secret()),
                None => None,
            },
        }
    }
}

#[derive(Clone, PartialEq, Eq)]
pub struct ProvidersConfig {
    pub tmdb: TmdbConfig,
    pub bangumi: EndpointConfig,
    pub anilist: AniListConfig,
    pub musicbrainz: EndpointConfig,
    pub openlibrary: OpenLibraryConfig,
}

/// Why configuration was refused.
#[derive(Debug, Clone, PartialEq, Eq)]
pub enum ConfigLoadError {
    MissingConfig(String),
    Validation(String),
}

/// The text of a configuration error.
pub open spec fn config_error_text(error: ConfigLoadError) -> Seq<char> {
    match error {
        ConfigLoadError::MissingConfig(path) => "configuration file does not exist: "@ + path@,
        ConfigLoadError::Validation(message) => "invalid configuration: "@ + message@,
    }
}

impl ConfigLoadError {
    /// The message shown for the error.
    pub fn to_string(&self) -> (text: String)
        ensures
            text@ == config_error_text(*self),
    {
        match self {
            ConfigLoadError::MissingConfig(path) => crate::text::concat_str(
                "configuration file does not exist: ",
                path.as_str(),
            ),
            ConfigLoadError::Validation(message) => crate::text::concat_str(
                "invalid configuration: ",
                message.as_str(),
            ),
        }
    }
}

/// The first of the given variables that the environment sets.
pub open spec fn first_set(env: Map<Seq<char>, Seq<char>>, keys: Seq<Seq<char>>) -> Option<
    Seq<char>,
>
    decreases keys.len(),
{
    if keys.len() == 0 {
        None
    } else if env.contains_key(keys[0]) {
        Some(env[keys[0]])
    } else {
        first_set(env, keys.drop_first())
    }
}

/// A valid reference names an environment variable with upper-case ASCII
/// letters, digits and underscores only.
pub open spec fn valid_reference(reference: Seq<char>) -> bool {
    reference.len() > 0 && forall|i: int| 0 <= i < reference.len() ==> {
        let c = #[trigger] reference[i];
        ('A' <= c && c <= 'Z') || ('0' <= c && c <= '9') || c == '_'
    }
}

/// The message for a malformed reference.
pub open spec fn reference_message(name: Seq<char>) -> Seq<char> {
    name + " must contain only uppercase ASCII letters, digits, and underscores"@
}

/// The message for a reference to a variable that is not set.
pub open spec fn unset_message(name: Seq<char>, reference: Seq<char>) -> Seq<char> {
    name + " references unset environment variable `"@ + reference + "`"@
}

pub fn validate_secret_reference(name: &str, reference: Option<&str>) -> (result: Result<
    (),
    ConfigLoadError,
>)
    ensures
        match reference {
            Some(r) => result is Ok <==> valid_reference(r@),
            None => result is Ok,
        },
        match result {
            Err(ConfigLoadError::Validation(message)) => message@ == reference_message(name@),
            Err(_) => false,
            Ok(()) => true,
        },
{
    if let Some(reference) = reference {
        let chars = chars_of(reference);
        let mut valid = chars.len() > 0;
        let mut i: usize = 0;
        while i < chars.len()
            invariant
                chars@ == reference@,
                i <= chars@.len(),
                valid == (chars@.len() > 0 && forall|j: int| 0 <= j < i ==> {
                    let c = #[trigger] chars@[j];
                    ('A' <= c && c <= 'Z') || ('0' <= c && c <= '9') || c == '_'
                }),
            decreases chars@.len() - i,
        {
            let c = chars[i];
            if !(('A' <= c && c <= 'Z') || ('0' <= c && c <= '9') || c == '_') {
                valid = false;
            }
            i += 1;
        }
        if !valid {
            return Err(
                ConfigLoadError::Validation(
                    concat_str(
                        name,
                        " must contain only uppercase ASCII letters, digits, and underscores",
                    ),
                ),
            );
        }
    }
    Ok(())
}

/// Looks up the variable a secret reference names.
pub open spec fn reference_result(
    name: Seq<char>,
    reference: Option<Seq<char>>,
    env: Map<Seq<char>, Seq<char>>,
) -> Result<Option<Seq<char>>, Seq<char>> {
    match reference {
        None => Ok(None),
        Some(r) => if !valid_reference(r) {
            Err(reference_message(name))
        } else if env.contains_key(r) {
            Ok(Some(env[r]))
        } else {
            Err(unset_message(name, r))
        },
    }
}

pub fn resolve_reference(name: &str, reference: Option<&str>, environment: &EnvMap) -> (result:
    Result<Option<SecretString>, ConfigLoadError>)
    ensures
        match reference_result(name@, opt_str_view(reference), environment@) {
            Ok(v) => result is Ok && secret_view(result->Ok_0) == v,
            Err(m) => result == Err::<Option<SecretString>, ConfigLoadError>(
                ConfigLoadError::Validation(result->Err_0->Validation_0),
            ) && result->Err_0->Validation_0@ == m,
        },
{
    match validate_secret_reference(name, reference) {
        Ok(()) => {},
        Err(e) => return Err(e),
    }
    match reference {
        None => Ok(None),
        Some(r) => match environment.get(r) {
            Some(v) => Ok(Some(SecretString::new(v.clone()))),
            None => {
                let message = concat_str(
                    concat_str(
                        concat_str(name, " references unset environment variable `").as_str(),
                        r,
                    ).as_str(),
                    "`",
                );
                Err(ConfigLoadError::Validation(message))
            },
        },
    }
}

fn first_set_of(environment: &EnvMap, keys: &[&str]) -> (value: Option<String>)
    ensures
        opt_string_view(value) == first_set(environment@, keys@.map_values(|k: &str| k@)),
{
    let mut i: usize = 0;
    let ghost views = keys@.map_values(|k: &str| k@);
    assert(views.skip(0) =~= views);
    while i < keys.len()
        invariant
            i <= keys@.len(),
            views == keys@.map_values(|k: &str| k@),
            first_set(environment@, views) == first_set(environment@, views.skip(i as int)),
        decreases keys@.len() - i,
    {
        assert(views.skip(i as int)[0] == keys@[i as int]@);
        assert(views.skip(i as int).drop_first() =~= views.skip(i + 1));
        match environment.get(keys[i]) {
            Some(v) => return Some(v.clone()),
            None => {},
        }
        i += 1;
    }
    None
}

/// The variables that override the TMDB token, in order of precedence.
pub open spec fn tmdb_token_keys() -> Seq<Seq<char>> {
    seq!["TMDB_API_TOKEN"@, "FIXER_API_KEY"@, "FIXER_PROVIDERS__TMDB__API_TOKEN"@]
}

/// The variables that override the AniList token, in order of precedence.
pub open spec fn anilist_token_keys() -> Seq<Seq<char>> {
    seq!["ANILIST_ACCESS_TOKEN"@, "FIXER_PROVIDERS__ANILIST__ACCESS_TOKEN"@]
}

/// A token taken from the first override variable that is set, else from the reference.
pub open spec fn resolved_token(override_value: Option<Seq<char>>, referenced: Option<Seq<char>>) -> Option<
    Seq<char>,
> {
    match override_value {
        Some(v) => Some(v),
        None => referenced,
    }
}

impl ProvidersConfig {
    pub fn default() -> (config: Self)
        ensures
            config.tmdb.base_url_view() == "https://api.themoviedb.org/3"@,
            config.bangumi.base_url@ == "https://api.bgm.tv"@,
            config.anilist.base_url_view() == "https://graphql.anilist.co"@,
            config.musicbrainz.base_url@ == "https://musicbrainz.org/ws/2"@,
            config.openlibrary.base_url@ == "https://openlibrary.org"@,
            config.openlibrary.cover_base_url@ == "https://covers.openlibrary.org/b/"@,
            config.tmdb.token_view() is None && config.tmdb.token_env_view() is None,
            config.tmdb.resolved_view() is None,
            config.anilist.token_view() is None && config.anilist.token_env_view() is None,
            config.anilist.resolved_view() is None,
    {
        ProvidersConfig {
            tmdb: TmdbConfig::default(),
            bangumi: EndpointConfig::new("https://api.bgm.tv"),
            anilist: AniListConfig::default(),
            musicbrainz: EndpointConfig::new("https://musicbrainz.org/ws/2"),
            openlibrary: OpenLibraryConfig::default(),
        }
    }

    /// Resolves both provider tokens from the environment. Each reference is
    /// checked even when an override variable supplies the token; the TMDB token
    /// is resolved before the AniList reference is checked.
    pub fn resolve_secrets(&mut self, environment: &EnvMap) -> (result: Result<(), ConfigLoadError>)
        ensures
            ({
                let tmdb_ref = reference_result(
                    "providers.tmdb.api_token_env"@,
                    old(self).tmdb.token_env_view(),
                    environment@,
                );
                let anilist_ref = reference_result(
                    "providers.anilist.access_token_env"@,
                    old(self).anilist.token_env_view(),
                    environment@,
                );
                &&& result is Ok <==> (tmdb_ref is Ok && anilist_ref is Ok)
                &&& match tmdb_ref {
                    Err(m) => result == Err::<(), ConfigLoadError>(ConfigLoadError::Validation(
                        result->Err_0->Validation_0,
                    )) && result->Err_0->Validation_0@ == m && *final(self) == *old(self),
                    Ok(t) => {
                        &&& final(self).tmdb.resolved_view() == resolved_token(
                            first_set(environment@, tmdb_token_keys()),
                            t,
                        )
                        &&& match anilist_ref {
                            Err(m) => result == Err::<(), ConfigLoadError>(
                                ConfigLoadError::Validation(result->Err_0->Validation_0),
                            ) && result->Err_0->Validation_0@ == m
                                && final(self).anilist == old(self).anilist,
                            Ok(a) => final(self).anilist.resolved_view() == resolved_token(
                                first_set(environment@, anilist_token_keys()),
                                a,
                            ),
                        }
                    },
                }
                &&& final(self).tmdb.base_url_view() == old(self).tmdb.base_url_view()
                &&& final(self).tmdb.token_view() == old(self).tmdb.token_view()
                &&& final(self).tmdb.token_env_view() == old(self).tmdb.token_env_view()
                &&& final(self).anilist.base_url_view() == old(self).anilist.base_url_view()
                &&& final(self).anilist.token_view() == old(self).anilist.token_view()
                &&& final(self).anilist.token_env_view() == old(self).anilist.token_env_view()
                &&& final(self).bangumi == old(self).bangumi
                &&& final(self).musicbrainz == old(self).musicbrainz
                &&& final(self).openlibrary == old(self).openlibrary
            }),
    {
        let tmdb_keys: [&str; 3] = ["TMDB_API_TOKEN", "FIXER_API_KEY", "FIXER_PROVIDERS__TMDB__API_TOKEN"];
        proof {
            assert(tmdb_keys@.map_values(|k: &str| k@) =~= tmdb_token_keys());
        }
        let tmdb_override = first_set_of(environment, &tmdb_keys);
        let tmdb_reference = match &self.tmdb.api_token_env {
            Some(r) => Some(r.as_str()),
            None => None,
        };
        let tmdb_referenced = match resolve_reference(
            "providers.tmdb.api_token_env",
            tmdb_reference,
            environment,
        ) {
            Ok(v) => v,
            Err(e) => return Err(e),
        };
        self.tmdb.resolved_api_token = match tmdb_override {
            Some(v) => Some(SecretString::new(v)),
            None => tmdb_referenced,
        };
        let anilist_keys: [&str; 2] = ["ANILIST_ACCESS_TOKEN", "FIXER_PROVIDERS__ANILIST__ACCESS_TOKEN"];
        proof {
            assert(anilist_keys@.map_values(|k: &str| k@) =~= anilist_token_keys());
        }
        let anilist_override = first_set_of(environment, &anilist_keys);
        let anilist_reference = match &self.anilist.access_token_env {
            Some(r) => Some(r.as_str()),
            None => None,
        };
        let anilist_referenced = match resolve_reference(
            "providers.anilist.access_token_env",
            anilist_reference,
            environment,
        ) {
            Ok(v) => v,
            Err(e) => return Err(e),
        };
        self.anilist.resolved_access_token = match anilist_override {
            Some(v) => Some(SecretString::new(v)),
            None => anilist_referenced,
        };
        Ok(())
    }
}

/// A setting overridden on the command line.
#[derive(Debug, Clone)]
pub struct ConfigOverrides {
    pub offline: Option<bool>,
    pub proxy: Option<String>,
    pub local_root: Option<String>,
}

impl ConfigOverrides {
    pub fn default() -> (overrides: Self)
        ensures
            overrides.offline is None && overrides.proxy is None && overrides.local_root is None,
    {
        ConfigOverrides { offline: None, proxy: None, local_root: None }
    }
}

/// The inputs from which configuration is loaded: a working directory, the
/// process environment, an optional explicit file and command-line overrides.
#[derive(Debug, Clone)]
pub struct ConfigLoader {
    pub cwd: String,
    pub environment: EnvMap,
    pub config_path: Option<String>,
    pub overrides: ConfigOverrides,
}

/// The values of a list of variables where, of a repeated name, the first
/// value counts.
pub open spec fn first_values(values: Seq<(String, String)>) -> Map<Seq<char>, Seq<char>>
    decreases values.len(),
{
    if values.len() == 0 {
        Map::empty()
    } else {
        let m = first_values(values.drop_last());
        if m.contains_key(values.last().0@) {
            m
        } else {
            m.insert(values.last().0@, values.last().1@)
        }
    }
}

impl ConfigLoader {
    pub fn new(cwd: String, environment: EnvMap) -> (loader: Self)
        ensures
            loader.cwd@ == cwd@,
            loader.environment@ == environment@,
            loader.config_path is None,
            loader.overrides.offline is None && loader.overrides.proxy is None
                && loader.overrides.local_root is None,
    {
        ConfigLoader { cwd, environment, config_path: None, overrides: ConfigOverrides::default() }
    }

    pub fn with_environment(self, environment: EnvMap) -> (loader: Self)
        ensures
            loader.environment@ == environment@,
            loader.cwd == self.cwd,
            loader.config_path == self.config_path,
            loader.overrides == self.overrides,
    {
        ConfigLoader { environment, ..self }
    }

    pub fn with_config_path(self, path: &str) -> (loader: Self)
        ensures
            opt_string_view(loader.config_path) == Some(path@),
            loader.cwd == self.cwd,
            loader.environment@ == self.environment@,
            loader.overrides == self.overrides,
    {
        ConfigLoader { config_path: Some(path.to_owned()), ..self }
    }

    /// Adds the variables read from a `.env` file, in file order: a variable
    /// already in the environment keeps its value, and of a name repeated in
    /// the file the first value counts.
    pub fn merge_dotenv(&mut self, values: Vec<(String, String)>)
        ensures
            final(self).environment@ == first_values(values@).union_prefer_right(old(self).environment@),
            final(self).cwd == old(self).cwd,
            final(self).config_path == old(self).config_path,
            final(self).overrides == old(self).overrides,
    {
        let ghost start = self.environment@;
        let ghost v = values@;
        let mut i: usize = 0;
        assert(first_values(v.take(0)).union_prefer_right(start) =~= start) by {
            assert(v.take(0) =~= Seq::<(String, String)>::empty());
        }
        while i < values.len()
            invariant
                i <= v.len(),
                v == values@,
                self.environment@ == first_values(v.take(i as int)).union_prefer_right(start),
                self.cwd == old(self).cwd,
                self.config_path == old(self).config_path,
                self.overrides == old(self).overrides,
            decreases v.len() - i,
        {
            let key = values[i].0.clone();
            let value = values[i].1.clone();
            assert(key@ == v[i as int].0@ && value@ == v[i as int].1@);
            let ghost fv = first_values(v.take(i as int));
            assert(v.take(i + 1).drop_last() =~= v.take(i as int));
            assert(v.take(i + 1).last() == v[i as int]);
            self.environment.insert_if_absent(key, value);
            proof {
                if !fv.contains_key(key@) && !start.contains_key(key@) {
                    assert(fv.insert(key@, value@).union_prefer_right(start) =~= fv.union_prefer_right(start).insert(
                        key@,
                        value@,
                    ));
                } else if !fv.contains_key(key@) {
                    assert(fv.insert(key@, value@).union_prefer_right(start) =~= fv.union_prefer_right(start));
                }
            }
            i += 1;
        }
        assert(v.take(i as int) =~= v);
    }

    pub fn with_overrides(self, overrides: ConfigOverrides) -> (loader: Self)
        ensures
            loader.overrides.offline == overrides.offline,
            opt_string_view(loader.overrides.proxy) == opt_string_view(overrides.proxy),
            opt_string_view(loader.overrides.local_root) == opt_string_view(
                overrides.local_root,
            ),
            loader.cwd == self.cwd,
            loader.config_path == self.config_path,
            loader.environment@ == self.environment@,
    {
        ConfigLoader { overrides, ..self }
    }

    /// The configuration file: the explicit path, else `FIXER_CONFIG`, else
    /// `fixer.toml`, resolved against the working directory when relative.
    pub fn selected_path(&self) -> (path: String)
        ensures
            path@ == join_path_spec(
                self.cwd@,
                match self.config_path {
                    Some(p) => p@,
                    None => if self.environment@.contains_key("FIXER_CONFIG"@) {
                        self.environment@["FIXER_CONFIG"@]
                    } else {
                        "fixer.toml"@
                    },
                },
            ),
    {
        let chosen: String = match &self.config_path {
            Some(p) => p.clone(),
            None => match self.environment.get("FIXER_CONFIG") {
                Some(v) => v.clone(),
                None => "fixer.toml".to_owned(),
            },
        };
        join_path(self.cwd.as_str(), chosen.as_str())
    }

    /// Whether a configuration file was named explicitly, so that it must exist.
    pub fn explicit(&self) -> (explicit: bool)
        ensures
            explicit == (self.config_path is Some || self.environment@.contains_key(
                "FIXER_CONFIG"@,
            )),
    {
        self.config_path.is_some() || self.environment.contains_key("FIXER_CONFIG")
    }
}

/// The words that read as true or false, compared after trimming and lower-casing.
pub open spec fn bool_word(word: Seq<char>) -> Option<bool> {
    if word == "1"@ || word == "true"@ || word == "yes"@ || word == "on"@ {
        Some(true)
    } else if word == "0"@ || word == "false"@ || word == "no"@ || word == "off"@ {
        Some(false)
    } else {
        None
    }
}

/// Reads a boolean setting.
pub fn parse_bool(name: &str, value: &str) -> (parsed: Result<bool, ConfigLoadError>)
    ensures
        match bool_word(ascii_lower_spec(trim_spec(value@))) {
            Some(b) => parsed == Ok::<bool, ConfigLoadError>(b),
            None => parsed is Err && parsed->Err_0 == ConfigLoadError::Validation(
                parsed->Err_0->Validation_0,
            ) && parsed->Err_0->Validation_0@ == name@ + " must be a boolean"@,
        },
{
    let trimmed = trim(value);
    let word = ascii_lowercase(trimmed.as_str());
    let w = word.as_str();
    if str_equal(w, "1") || str_equal(w, "true") || str_equal(w, "yes") || str_equal(w, "on") {
        Ok(true)
    } else if str_equal(w, "0") || str_equal(w, "false") || str_equal(w, "no") || str_equal(
        w,
        "off",
    ) {
        Ok(false)
    } else {
        Err(ConfigLoadError::Validation(concat_str(name, " must be a boolean")))
    }
}

} // verus!

verus! {

/// The canonical variables that the configuration reads through its nested
/// `FIXER_` names.
pub open spec fn canonical_key(key: Seq<char>) -> bool {
    key == "FIXER_OFFLINE"@
        || key == "FIXER_PROXY"@
        || key == "FIXER_LOCAL_ROOT"@
        || key == "FIXER_PREFERRED_LOCALES"@
        || key == "FIXER_TIMEOUT_SECONDS"@
        || key == "FIXER_AUTO_ACCEPT_CONFIDENCE"@
        || key == "FIXER_REVIEW_CONFIDENCE"@
        || key == "FIXER_OUTPUT_PRESET"@
        || key == "FIXER_PLACEMENT"@
        || key == "FIXER_CONFLICT_POLICY"@
        || key == "FIXER_ENABLED_PROVIDERS"@
        || key == "FIXER_PROVIDERS__TMDB__BASE_URL"@
        || key == "FIXER_PROVIDERS__TMDB__API_TOKEN"@
        || key == "FIXER_PROVIDERS__TMDB__API_TOKEN_ENV"@
        || key == "FIXER_PROVIDERS__BANGUMI__BASE_URL"@
        || key == "FIXER_PROVIDERS__ANILIST__BASE_URL"@
        || key == "FIXER_PROVIDERS__ANILIST__ACCESS_TOKEN"@
        || key == "FIXER_PROVIDERS__ANILIST__ACCESS_TOKEN_ENV"@
        || key == "FIXER_PROVIDERS__MUSICBRAINZ__BASE_URL"@
        || key == "FIXER_PROVIDERS__OPENLIBRARY__BASE_URL"@
        || key == "FIXER_PROVIDERS__OPENLIBRARY__COVER_BASE_URL"@
        || key == "FIXER_SERVER__BIND"@
        || key == "FIXER_SERVER__DATABASE"@
        || key == "FIXER_SERVER__MEDIA_ROOTS"@
        || key == "FIXER_SERVER__WEB_ROOT"@
        || key == "FIXER_SERVER__ALLOWED_ORIGINS"@
        || key == "FIXER_SERVER__HTTPS_TERMINATION"@
        || key == "FIXER_SERVER__WORKER_COUNT"@
        || key == "FIXER_SERVER__TRUSTED_PROXY__RANGES"@
        || key == "FIXER_SERVER__TRUSTED_PROXY__HEADER"@
        || key == "FIXER_LOGGING__FILTER"@
        || key == "FIXER_LOGGING__FORMAT"@
}

/// Variables that never feed the nested configuration: the configuration path,
/// direct secrets, and legacy names handled separately.
pub open spec fn excluded_key(key: Seq<char>) -> bool {
    key == "FIXER_CONFIG"@
        || key == "FIXER_API_KEY"@
        || key == "FIXER_PROVIDERS__TMDB__API_TOKEN"@
        || key == "FIXER_PROVIDERS__ANILIST__ACCESS_TOKEN"@
        || key == "FIXER_ANILIST_ENABLED"@
        || key == "FIXER_BANGUMI_ACCESS_TOKEN"@
        || key == "FIXER_SERVER_BIND"@
        || key == "FIXER_SERVER_DATABASE"@
        || key == "FIXER_SERVER_MEDIA_ROOTS"@
        || key == "FIXER_SERVER_HTTPS_TERMINATION"@
        || key == "FIXER_SERVER_ALLOWED_ORIGINS"@
        || key == "FIXER_SERVER_TRUSTED_PROXY_RANGES"@
        || key == "FIXER_SERVER_TRUSTED_PROXY_HEADER"@
        || key == "FIXER_SERVER_PASSWORD"@
        || key == "FIXER_WEB_ROOT"@
}

pub fn is_canonical_key(key: &str) -> (canonical: bool)
    ensures
        canonical == canonical_key(key@),
{
    str_equal(key, "FIXER_OFFLINE")
        || str_equal(key, "FIXER_PROXY")
        || str_equal(key, "FIXER_LOCAL_ROOT")
        || str_equal(key, "FIXER_PREFERRED_LOCALES")
        || str_equal(key, "FIXER_TIMEOUT_SECONDS")
        || str_equal(key, "FIXER_AUTO_ACCEPT_CONFIDENCE")
        || str_equal(key, "FIXER_REVIEW_CONFIDENCE")
        || str_equal(key, "FIXER_OUTPUT_PRESET")
        || str_equal(key, "FIXER_PLACEMENT")
        || str_equal(key, "FIXER_CONFLICT_POLICY")
        || str_equal(key, "FIXER_ENABLED_PROVIDERS")
        || str_equal(key, "FIXER_PROVIDERS__TMDB__BASE_URL")
        || str_equal(key, "FIXER_PROVIDERS__TMDB__API_TOKEN")
        || str_equal(key, "FIXER_PROVIDERS__TMDB__API_TOKEN_ENV")
        || str_equal(key, "FIXER_PROVIDERS__BANGUMI__BASE_URL")
        || str_equal(key, "FIXER_PROVIDERS__ANILIST__BASE_URL")
        || str_equal(key, "FIXER_PROVIDERS__ANILIST__ACCESS_TOKEN")
        || str_equal(key, "FIXER_PROVIDERS__ANILIST__ACCESS_TOKEN_ENV")
        || str_equal(key, "FIXER_PROVIDERS__MUSICBRAINZ__BASE_URL")
        || str_equal(key, "FIXER_PROVIDERS__OPENLIBRARY__BASE_URL")
        || str_equal(key, "FIXER_PROVIDERS__OPENLIBRARY__COVER_BASE_URL")
        || str_equal(key, "FIXER_SERVER__BIND")
        || str_equal(key, "FIXER_SERVER__DATABASE")
        || str_equal(key, "FIXER_SERVER__MEDIA_ROOTS")
        || str_equal(key, "FIXER_SERVER__WEB_ROOT")
        || str_equal(key, "FIXER_SERVER__ALLOWED_ORIGINS")
        || str_equal(key, "FIXER_SERVER__HTTPS_TERMINATION")
        || str_equal(key, "FIXER_SERVER__WORKER_COUNT")
        || str_equal(key, "FIXER_SERVER__TRUSTED_PROXY__RANGES")
        || str_equal(key, "FIXER_SERVER__TRUSTED_PROXY__HEADER")
        || str_equal(key, "FIXER_LOGGING__FILTER")
        || str_equal(key, "FIXER_LOGGING__FORMAT")
}

pub fn is_excluded_key(key: &str) -> (excluded: bool)
    ensures
        excluded == excluded_key(key@),
{
    str_equal(key, "FIXER_CONFIG")
        || str_equal(key, "FIXER_API_KEY")
        || str_equal(key, "FIXER_PROVIDERS__TMDB__API_TOKEN")
        || str_equal(key, "FIXER_PROVIDERS__ANILIST__ACCESS_TOKEN")
        || str_equal(key, "FIXER_ANILIST_ENABLED")
        || str_equal(key, "FIXER_BANGUMI_ACCESS_TOKEN")
        || str_equal(key, "FIXER_SERVER_BIND")
        || str_equal(key, "FIXER_SERVER_DATABASE")
        || str_equal(key, "FIXER_SERVER_MEDIA_ROOTS")
        || str_equal(key, "FIXER_SERVER_HTTPS_TERMINATION")
        || str_equal(key, "FIXER_SERVER_ALLOWED_ORIGINS")
        || str_equal(key, "FIXER_SERVER_TRUSTED_PROXY_RANGES")
        || str_equal(key, "FIXER_SERVER_TRUSTED_PROXY_HEADER")
        || str_equal(key, "FIXER_SERVER_PASSWORD")
        || str_equal(key, "FIXER_WEB_ROOT")
}

/// The providers this build knows.
pub open spec fn known_provider(name: Seq<char>) -> bool {
    name == "local"@
        || name == "tmdb"@
        || name == "bangumi"@
        || name == "anilist"@
        || name == "musicbrainz"@
        || name == "openlibrary"@
}

pub fn is_known_provider(name: &str) -> (known: bool)
    ensures
        known == known_provider(name@),
{
    str_equal(name, "local")
        || str_equal(name, "tmdb")
        || str_equal(name, "bangumi")
        || str_equal(name, "anilist")
        || str_equal(name, "musicbrainz")
        || str_equal(name, "openlibrary")
}

} // verus!

verus! {

/// The environment restricted to the variables that `allowed` accepts.
pub open spec fn restrict_env(
    env: Map<Seq<char>, Seq<char>>,
    allowed: spec_fn(Seq<char>) -> bool,
) -> Map<Seq<char>, Seq<char>> {
    Map::new(|k: Seq<char>| env.contains_key(k) && allowed(k), |k: Seq<char>| env[k])
}

/// A variable that reaches the nested configuration: canonical, not excluded,
/// and not one that a secret reference names.
pub open spec fn forwarded_key(key: Seq<char>, secret_keys: Set<Seq<char>>) -> bool {
    canonical_key(key) && !excluded_key(key) && !secret_keys.contains(key)
}

fn contains_string(values: &Vec<String>, key: &str) -> (found: bool)
    ensures
        found == values@.map_values(|v: String| v@).contains(key@),
{
    let mut i: usize = 0;
    while i < values.len()
        invariant
            i <= values@.len(),
            forall|j: int| 0 <= j < i ==> values@[j]@ != key@,
        decreases values@.len() - i,
    {
        if str_equal(values[i].as_str(), key) {
            assert(values@.map_values(|v: String| v@)[i as int] == key@);
            return true;
        }
        i += 1;
    }
    proof {
        let views = values@.map_values(|v: String| v@);
        if views.contains(key@) {
            let j = choose|j: int| 0 <= j < views.len() && #[trigger] views[j] == key@;
            assert(values@[j]@ == key@);
        }
    }
    false
}

/// The environment that the nested configuration source may read.
pub fn filtered_environment(environment: &EnvMap, secret_keys: &Vec<String>) -> (filtered: EnvMap)
    ensures
        filtered@ == restrict_env(
            environment@,
            |k: Seq<char>| forwarded_key(k, secret_keys@.map_values(|v: String| v@).to_set()),
        ),
{
    let entries = environment.entries();
    let ghost secrets = secret_keys@.map_values(|v: String| v@).to_set();
    let ghost allowed = |k: Seq<char>| forwarded_key(k, secrets);
    let mut filtered = EnvMap::new();
    let mut i: usize = 0;
    assert(crate::env::entries_map(entries@.take(0)) =~= Map::<Seq<char>, Seq<char>>::empty());
    assert(restrict_env(Map::<Seq<char>, Seq<char>>::empty(), allowed) =~= Map::<Seq<char>, Seq<char>>::empty());
    while i < entries.len()
        invariant
            i <= entries@.len(),
            crate::env::entries_map(entries@) == environment@,
            secrets == secret_keys@.map_values(|v: String| v@).to_set(),
            allowed == (|k: Seq<char>| forwarded_key(k, secrets)),
            filtered@ == restrict_env(crate::env::entries_map(entries@.take(i as int)), allowed),
        decreases entries@.len() - i,
    {
        let (key, value) = &entries[i];
        assert(entries@.take(i + 1).drop_last() =~= entries@.take(i as int));
        let keep = is_canonical_key(key.as_str()) && !is_excluded_key(key.as_str())
            && !contains_string(secret_keys, key.as_str());
        proof {
            assert(secrets.contains(key@) == secret_keys@.map_values(|v: String| v@).contains(key@));
        }
        let ghost before = crate::env::entries_map(entries@.take(i as int));
        if keep {
            filtered.insert(key.clone(), value.clone());
            assert(filtered@ =~= restrict_env(before.insert(key@, value@), allowed));
        } else {
            assert(filtered@ =~= restrict_env(before.insert(key@, value@), allowed));
        }
        i += 1;
    }
    assert(entries@.take(entries@.len() as int) =~= entries@);
    filtered
}

/// The variable names that secret references point to: those named by the two
/// `_ENV` override variables, and those read from the configuration file.
pub open spec fn secret_key_set(
    env: Map<Seq<char>, Seq<char>>,
    file_references: Seq<Seq<char>>,
) -> Set<Seq<char>> {
    let tmdb = "FIXER_PROVIDERS__TMDB__API_TOKEN_ENV"@;
    let anilist = "FIXER_PROVIDERS__ANILIST__ACCESS_TOKEN_ENV"@;
    file_references.to_set().union(
        Set::new(
            |v: Seq<char>|
                (env.contains_key(tmdb) && env[tmdb] == v) || (env.contains_key(anilist)
                    && env[anilist] == v),
        ),
    )
}

/// The names of variables that hold referenced secrets; `file_references` are
/// the reference values the configuration file sets.
pub fn secret_environment_keys(environment: &EnvMap, file_references: Vec<String>) -> (keys: Vec<
    String,
>)
    ensures
        keys@.map_values(|v: String| v@).to_set() == secret_key_set(
            environment@,
            file_references@.map_values(|v: String| v@),
        ),
{
    let mut keys = file_references;
    let ghost file_view = keys@.map_values(|v: String| v@);
    let ghost tmdb = "FIXER_PROVIDERS__TMDB__API_TOKEN_ENV"@;
    let ghost anilist = "FIXER_PROVIDERS__ANILIST__ACCESS_TOKEN_ENV"@;
    if let Some(v) = environment.get("FIXER_PROVIDERS__TMDB__API_TOKEN_ENV") {
        keys.push(v.clone());
    }
    if let Some(v) = environment.get("FIXER_PROVIDERS__ANILIST__ACCESS_TOKEN_ENV") {
        keys.push(v.clone());
    }
    proof {
        let result = keys@.map_values(|v: String| v@);
        let expected = secret_key_set(environment@, file_view);
        assert forall|x: Seq<char>| result.to_set().contains(x) <==> expected.contains(x) by {
            if result.to_set().contains(x) {
                let j = choose|j: int| 0 <= j < result.len() && result[j] == x;
                if j < file_view.len() {
                    assert(file_view[j] == x);
                    assert(file_view.to_set().contains(x));
                }
            }
            if file_view.to_set().contains(x) {
                let j = choose|j: int| 0 <= j < file_view.len() && file_view[j] == x;
                assert(result[j] == x);
            }
            if environment@.contains_key(tmdb) && environment@[tmdb] == x {
                assert(result[file_view.len() as int] == x);
            }
            if environment@.contains_key(anilist) && environment@[anilist] == x {
                if environment@.contains_key(tmdb) {
                    assert(result[file_view.len() as int + 1] == x);
                } else {
                    assert(result[file_view.len() as int] == x);
                }
            }
        }
        assert(result.to_set() =~= expected);
    }
    keys
}

/// Whether the enabled providers were listed explicitly, by the environment or
/// by the configuration file.
pub fn explicit_provider_list(environment: &EnvMap, file_lists_providers: bool) -> (explicit: bool)
    ensures
        explicit == (environment@.contains_key("FIXER_ENABLED_PROVIDERS"@) || file_lists_providers),
{
    environment.contains_key("FIXER_ENABLED_PROVIDERS") || file_lists_providers
}

/// Whether `provider` is among the enabled providers.
pub fn provider_enabled(enabled: &Vec<String>, provider: &str) -> (on: bool)
    ensures
        on == enabled@.map_values(|v: String| v@).contains(provider@),
{
    contains_string(enabled, provider)
}

} // verus!

verus! {

/// The value of an environment variable, if set.
pub open spec fn env_value(env: Map<Seq<char>, Seq<char>>, key: Seq<char>) -> Option<Seq<char>> {
    if env.contains_key(key) {
        Some(env[key])
    } else {
        None
    }
}

/// `value` when given, else `current`.
pub open spec fn overridden(current: Seq<char>, value: Option<Seq<char>>) -> Seq<char> {
    match value {
        Some(v) => v,
        None => current,
    }
}

/// The enabled providers after the legacy AniList switch: turned on, `anilist`
/// is appended unless present; turned off, every `anilist` entry is removed.
pub open spec fn anilist_switch(enabled: Seq<Seq<char>>, on: bool) -> Seq<Seq<char>> {
    if on {
        if enabled.contains("anilist"@) {
            enabled
        } else {
            enabled.push("anilist"@)
        }
    } else {
        enabled.filter(|p: Seq<char>| p != "anilist"@)
    }
}

/// The legacy environment variables that override server and provider settings.
pub struct LegacyTargets<'a> {
    pub allowed_origins: &'a mut Vec<String>,
    pub https_termination: &'a mut bool,
    pub trusted_proxy: &'a mut TrustedProxyConfig,
}

fn set_if_present(target: &mut String, environment: &EnvMap, key: &str)
    ensures
        final(target)@ == overridden(old(target)@, env_value(environment@, key@)),
{
    if let Some(v) = environment.get(key) {
        *target = v.clone();
    }
}

fn remove_anilist(enabled: &mut Vec<String>)
    ensures
        final(enabled)@.map_values(|v: String| v@) == old(enabled)@.map_values(|v: String| v@).filter(
            |p: Seq<char>| p != "anilist"@,
        ),
{
    let ghost pred = |p: Seq<char>| p != "anilist"@;
    let ghost given = old(enabled)@.map_values(|v: String| v@);
    let mut kept: Vec<String> = Vec::new();
    let mut i: usize = 0;
    while i < enabled.len()
        invariant
            i <= enabled@.len(),
            enabled@ == old(enabled)@,
            given == old(enabled)@.map_values(|v: String| v@),
            pred == (|p: Seq<char>| p != "anilist"@),
            kept@.map_values(|v: String| v@) == given.take(i as int).filter(pred),
        decreases enabled@.len() - i,
    {
        proof {
            assert(given.take(i + 1) =~= given.take(i as int).push(given[i as int]));
            given.take(i as int).lemma_filter_push(given[i as int], pred);
        }
        if !str_equal(enabled[i].as_str(), "anilist") {
            kept.push(enabled[i].clone());
        }
        assert(kept@.map_values(|v: String| v@) =~= given.take(i + 1).filter(pred));
        i += 1;
    }
    assert(given.take(enabled@.len() as int) =~= given);
    *enabled = kept;
}

/// Applies the legacy environment variables, in the loader's order. A malformed boolean stops the application with the
/// settings read so far already applied.
pub fn apply_legacy_overrides(
    environment: &EnvMap,
    providers_explicit: bool,
    providers: &mut ProvidersConfig,
    enabled_providers: &mut Vec<String>,
    targets: LegacyTargets,
) -> (result: Result<(), ConfigLoadError>)
    ensures
        ({
            let env = environment@;
            let https = env_value(env, "FIXER_SERVER_HTTPS_TERMINATION"@);
            let https_ok = match https {
                Some(v) => bool_word(ascii_lower_spec(trim_spec(v))) is Some,
                None => true,
            };
            let anilist = env_value(env, "FIXER_ANILIST_ENABLED"@);
            let anilist_ok = match anilist {
                Some(v) => bool_word(ascii_lower_spec(trim_spec(v))) is Some,
                None => true,
            };
            &&& result is Ok <==> https_ok && anilist_ok
            &&& (result is Err ==> result->Err_0 is Validation)
            &&& (!https_ok ==> result->Err_0->Validation_0@
                == "FIXER_SERVER_HTTPS_TERMINATION must be a boolean"@)
            &&& (https_ok && !anilist_ok ==> result->Err_0->Validation_0@
                == "FIXER_ANILIST_ENABLED must be a boolean"@)
            &&& (https_ok ==> {
                &&& final(targets.trusted_proxy).header@ == overridden(
                    old(targets.trusted_proxy).header@,
                    env_value(env, "FIXER_SERVER_TRUSTED_PROXY_HEADER"@),
                )
                &&& final(providers).bangumi.base_url@ == overridden(
                    old(providers).bangumi.base_url@,
                    env_value(env, "BANGUMI_BASE_URL"@),
                )
                &&& final(providers).musicbrainz.base_url@ == overridden(
                    old(providers).musicbrainz.base_url@,
                    env_value(env, "MUSICBRAINZ_BASE_URL"@),
                )
                &&& final(providers).openlibrary.base_url@ == overridden(
                    old(providers).openlibrary.base_url@,
                    env_value(env, "OPENLIBRARY_BASE_URL"@),
                )
                &&& final(providers).openlibrary.cover_base_url@ == overridden(
                    old(providers).openlibrary.cover_base_url@,
                    env_value(env, "OPENLIBRARY_COVER_BASE_URL"@),
                )
                &&& final(providers).tmdb.base_url_view() == overridden(
                    old(providers).tmdb.base_url_view(),
                    env_value(env, "TMDB_BASE_URL"@),
                )
                &&& final(providers).anilist.base_url_view() == overridden(
                    old(providers).anilist.base_url_view(),
                    env_value(env, "ANILIST_ENDPOINT"@),
                )
            })
            &&& final(targets.allowed_origins)@.map_values(|v: String| v@) == match env_value(
                env,
                "FIXER_SERVER_ALLOWED_ORIGINS"@,
            ) {
                Some(v) => csv_spec(v),
                None => old(targets.allowed_origins)@.map_values(|v: String| v@),
            }
            &&& (https_ok && https is Some ==> *final(targets.https_termination) == bool_word(
                ascii_lower_spec(trim_spec(https->0)),
            )->0)
            &&& (https is None ==> *final(targets.https_termination) == *old(
                targets.https_termination,
            ))
            &&& final(enabled_providers)@.map_values(|v: String| v@) == if https_ok && anilist_ok
                && anilist is Some && !providers_explicit {
                anilist_switch(
                    old(enabled_providers)@.map_values(|v: String| v@),
                    bool_word(ascii_lower_spec(trim_spec(anilist->0)))->0,
                )
            } else {
                old(enabled_providers)@.map_values(|v: String| v@)
            }
        }),
{
    let LegacyTargets { allowed_origins, https_termination, trusted_proxy } = targets;
    if let Some(v) = environment.get("FIXER_SERVER_ALLOWED_ORIGINS") {
        *allowed_origins = csv(v.as_str());
    }
    if let Some(v) = environment.get("FIXER_SERVER_HTTPS_TERMINATION") {
        match parse_bool("FIXER_SERVER_HTTPS_TERMINATION", v.as_str()) {
            Ok(b) => {
                *https_termination = b;
            },
            Err(e) => {
                proof {
                    reveal_strlit("FIXER_SERVER_HTTPS_TERMINATION");
                    reveal_strlit(" must be a boolean");
                    reveal_strlit("FIXER_SERVER_HTTPS_TERMINATION must be a boolean");
                }
                return Err(e);
            },
        }
    }
    if let Some(v) = environment.get("FIXER_SERVER_TRUSTED_PROXY_RANGES") {
        trusted_proxy.ranges = csv(v.as_str());
    }
    set_if_present(&mut trusted_proxy.header, environment, "FIXER_SERVER_TRUSTED_PROXY_HEADER");
    set_if_present(&mut providers.tmdb.base_url, environment, "TMDB_BASE_URL");
    set_if_present(&mut providers.bangumi.base_url, environment, "BANGUMI_BASE_URL");
    set_if_present(&mut providers.musicbrainz.base_url, environment, "MUSICBRAINZ_BASE_URL");
    set_if_present(&mut providers.openlibrary.base_url, environment, "OPENLIBRARY_BASE_URL");
    set_if_present(
        &mut providers.openlibrary.cover_base_url,
        environment,
        "OPENLIBRARY_COVER_BASE_URL",
    );
    set_if_present(&mut providers.anilist.base_url, environment, "ANILIST_ENDPOINT");
    if let Some(value) = environment.get("FIXER_ANILIST_ENABLED") {
        let enabled = match parse_bool("FIXER_ANILIST_ENABLED", value.as_str()) {
            Ok(b) => b,
            Err(e) => {
                proof {
                    reveal_strlit("FIXER_ANILIST_ENABLED");
                    reveal_strlit(" must be a boolean");
                    reveal_strlit("FIXER_ANILIST_ENABLED must be a boolean");
                }
                return Err(e);
            },
        };
        if !providers_explicit {
            if enabled && !provider_enabled(enabled_providers, "anilist") {
                enabled_providers.push("anilist".to_owned());
                assert(enabled_providers@.map_values(|v: String| v@) =~= old(
                    enabled_providers,
                )@.map_values(|v: String| v@).push("anilist"@));
            } else if !enabled {
                remove_anilist(enabled_providers);
            }
        }
    }
    Ok(())
}

/// The values of `values` without repeats, each at its first position.
pub open spec fn first_occurrences(values: Seq<Seq<char>>) -> Seq<Seq<char>>
    decreases values.len(),
{
    if values.len() == 0 {
        seq![]
    } else {
        let rest = first_occurrences(values.drop_last());
        if values.drop_last().contains(values.last()) {
            rest
        } else {
            rest.push(values.last())
        }
    }
}

/// Drops repeated provider names, keeping the first of each.
pub fn dedup_providers(providers: &Vec<String>) -> (unique: Vec<String>)
    ensures
        unique@.map_values(|p: String| p@) == first_occurrences(providers@.map_values(|p: String| p@)),
{
    let ghost all = providers@.map_values(|p: String| p@);
    let mut unique: Vec<String> = Vec::new();
    let mut i: usize = 0;
    assert(all.take(0) =~= Seq::<Seq<char>>::empty());
    while i < providers.len()
        invariant
            all == providers@.map_values(|p: String| p@),
            i <= all.len(),
            unique@.map_values(|p: String| p@) == first_occurrences(all.take(i as int)),
            forall|k: int| 0 <= k < unique@.len() ==> all.take(i as int).contains(#[trigger] unique@[k]@),
            forall|k: int| 0 <= k < i ==> exists|m: int| 0 <= m < unique@.len() && #[trigger] all[k] == unique@[m]@,
        decreases all.len() - i,
    {
        let name = &providers[i];
        assert(all[i as int] == name@);
        assert(all.take(i + 1).drop_last() =~= all.take(i as int));
        assert(all.take(i + 1).last() == name@);
        let mut seen = false;
        let mut j: usize = 0;
        while j < unique.len()
            invariant
                j <= unique@.len(),
                seen == exists|m: int| 0 <= m < j && unique@[m]@ == name@,
            decreases unique@.len() - j,
        {
            if str_equal(unique[j].as_str(), name.as_str()) {
                seen = true;
            }
            j += 1;
        }
        proof {
            if seen {
                let m = choose|m: int| 0 <= m < unique@.len() && unique@[m]@ == name@;
                assert(all.take(i as int).contains(unique@[m]@));
            } else {
                if all.take(i as int).contains(name@) {
                    let k = choose|k: int| 0 <= k < i && all.take(i as int)[k] == name@;
                    assert(all[k] == name@);
                    let m = choose|m: int| 0 <= m < unique@.len() && #[trigger] all[k] == unique@[m]@;
                    assert(unique@[m]@ == name@);
                }
            }
        }
        if !seen {
            let ghost before = unique@;
            unique.push(name.clone());
            proof {
                assert(unique@.map_values(|p: String| p@) =~= before.map_values(|p: String| p@).push(name@));
                assert forall|k: int| 0 <= k < i + 1 implies exists|m: int| 0 <= m < unique@.len() && #[trigger] all[k] == unique@[m]@ by {
                    if k == i {
                        assert(all[k] == unique@[before.len() as int]@);
                    } else {
                        let m = choose|m: int| 0 <= m < before.len() && #[trigger] all[k] == before[m]@;
                        assert(unique@[m] == before[m]);
                    }
                }
                assert forall|k: int| 0 <= k < unique@.len() implies all.take(i + 1).contains(#[trigger] unique@[k]@) by {
                    if k < before.len() {
                        assert(before[k] == unique@[k]);
                        let w = choose|w: int| 0 <= w < i && all.take(i as int)[w] == before[k]@;
                        assert(all.take(i + 1)[w] == before[k]@);
                    } else {
                        assert(all.take(i + 1)[i as int] == name@);
                    }
                }
            }
        } else {
            proof {
                assert forall|k: int| 0 <= k < unique@.len() implies all.take(i + 1).contains(#[trigger] unique@[k]@) by {
                    let w = choose|w: int| 0 <= w < i && all.take(i as int)[w] == unique@[k]@;
                    assert(all.take(i + 1)[w] == unique@[k]@);
                }
                let m = choose|m: int| 0 <= m < unique@.len() && unique@[m]@ == name@;
                assert(all[i as int] == unique@[m]@);
            }
        }
        i += 1;
    }
    assert(all.take(i as int) =~= all);
    unique
}

} // verus!
