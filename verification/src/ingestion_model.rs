use vstd::prelude::*;

use crate::job_model::{JobId, JobMediaKind};
use crate::text::{byte_len, contains_control, has_control, str_equal, trim, trim_spec, utf8_len};

verus! {

pub const MAX_NAME_BYTES: usize = 100;
pub const MAX_ROOT_ID_BYTES: usize = 128;
pub const MAX_RELATIVE_PATH_BYTES: usize = 4096;
pub const MAX_TEMPLATE_BYTES: usize = 4096;
pub const MAX_LAST_ERROR_BYTES: usize = 1000;

/// Text that is present, at most `max` UTF-8 bytes long and free of control characters.
pub open spec fn valid_required_text(value: Seq<char>, max: nat) -> bool {
    value.len() > 0 && utf8_len(value) <= max && !has_control(value)
}

/// Text that is at most `max` UTF-8 bytes long and free of control characters.
pub open spec fn valid_optional_text(value: Seq<char>, max: nat) -> bool {
    utf8_len(value) <= max && !has_control(value)
}

/// Why an ingestion model value was refused.
#[derive(Debug, Clone, Copy, PartialEq, Eq)]
pub enum IngestionModelError {
    InvalidRequiredText { field: &'static str, max: usize },
    InvalidOptionalText { field: &'static str, max: usize },
    SourceSizeOutOfRange,
    ModifiedTimeOutOfRange,
    InvalidRuleId,
    InvalidSourceId,
    InvalidMediaKindMode,
    InvalidMediaKind,
    InvalidPlacement,
    InvalidStatus,
}

/// The error reported for a required text field, naming the field and its bound.
pub open spec fn is_required_error(
    result: Result<(), IngestionModelError>,
    field: Seq<char>,
    max: usize,
) -> bool {
    match result {
        Err(IngestionModelError::InvalidRequiredText { field: f, max: m }) => f@ == field && m
            == max,
        _ => false,
    }
}

pub fn validate_required(field: &'static str, value: &str, max: usize) -> (result: Result<
    (),
    IngestionModelError,
>)
    ensures
        result is Ok <==> valid_required_text(value@, max as nat),
        result is Err ==> is_required_error(result, field@, max),
{
    if value.is_empty() || byte_len(value) > max || contains_control(value) {
        return Err(IngestionModelError::InvalidRequiredText { field, max });
    }
    Ok(())
}

pub fn validate_optional(field: &'static str, value: &str, max: usize) -> (result: Result<
    (),
    IngestionModelError,
>)
    ensures
        result is Ok <==> valid_optional_text(value@, max as nat),
        result is Err ==> match result {
            Err(IngestionModelError::InvalidOptionalText { field: f, max: m }) => f@ == field@
                && m == max,
            _ => false,
        },
{
    if byte_len(value) > max || contains_control(value) {
        return Err(IngestionModelError::InvalidOptionalText { field, max });
    }
    Ok(())
}

/// The persistent name of a media kind.
pub open spec fn media_kind_name_spec(kind: JobMediaKind) -> Seq<char> {
    match kind {
        JobMediaKind::Anime => "anime"@,
        JobMediaKind::Book => "book"@,
        JobMediaKind::Movie => "movie"@,
        JobMediaKind::Music => "music"@,
        JobMediaKind::Television => "television"@,
    }
}

/// The media kind whose persistent name is `name`, if any.
pub open spec fn media_kind_from_name(name: Seq<char>) -> Option<JobMediaKind> {
    if name == "anime"@ {
        Some(JobMediaKind::Anime)
    } else if name == "book"@ {
        Some(JobMediaKind::Book)
    } else if name == "movie"@ {
        Some(JobMediaKind::Movie)
    } else if name == "music"@ {
        Some(JobMediaKind::Music)
    } else if name == "television"@ {
        Some(JobMediaKind::Television)
    } else {
        None
    }
}

pub fn media_kind_name(kind: JobMediaKind) -> (name: &'static str)
    ensures
        name@ == media_kind_name_spec(kind),
{
    match kind {
        JobMediaKind::Anime => "anime",
        JobMediaKind::Book => "book",
        JobMediaKind::Movie => "movie",
        JobMediaKind::Music => "music",
        JobMediaKind::Television => "television",
    }
}

pub fn parse_media_kind(value: &str) -> (kind: Result<JobMediaKind, IngestionModelError>)
    ensures
        match kind {
            Ok(k) => media_kind_from_name(value@) == Some(k),
            Err(e) => media_kind_from_name(value@) is None && e
                == IngestionModelError::InvalidMediaKind,
        },
{
    if str_equal(value, "anime") {
        Ok(JobMediaKind::Anime)
    } else if str_equal(value, "book") {
        Ok(JobMediaKind::Book)
    } else if str_equal(value, "movie") {
        Ok(JobMediaKind::Movie)
    } else if str_equal(value, "music") {
        Ok(JobMediaKind::Music)
    } else if str_equal(value, "television") {
        Ok(JobMediaKind::Television)
    } else {
        Err(IngestionModelError::InvalidMediaKind)
    }
}

#[derive(Debug, Clone, Copy, PartialEq, Eq, Structural)]
pub enum MediaKindMode {
    Auto,
    Fixed(JobMediaKind),
}

/// The two persistent columns that store a media kind mode.
pub open spec fn mode_storage_spec(mode: MediaKindMode) -> (Seq<char>, Option<Seq<char>>) {
    match mode {
        MediaKindMode::Auto => ("auto"@, None),
        MediaKindMode::Fixed(kind) => ("fixed"@, Some(media_kind_name_spec(kind))),
    }
}

/// The mode stored in the two persistent columns, if they hold one.
pub open spec fn mode_from_storage_spec(mode: Seq<char>, fixed_kind: Option<Seq<char>>) -> Option<
    MediaKindMode,
> {
    if mode == "auto"@ && fixed_kind is None {
        Some(MediaKindMode::Auto)
    } else if mode == "fixed"@ && fixed_kind is Some {
        match media_kind_from_name(fixed_kind->0) {
            Some(kind) => Some(MediaKindMode::Fixed(kind)),
            None => None,
        }
    } else {
        None
    }
}

impl MediaKindMode {
    pub fn storage_parts(self) -> (parts: (&'static str, Option<&'static str>))
        ensures
            parts.0@ == mode_storage_spec(self).0,
            match parts.1 {
                Some(k) => mode_storage_spec(self).1 == Some(k@),
                None => mode_storage_spec(self).1 is None,
            },
    {
        match self {
            MediaKindMode::Auto => ("auto", None),
            MediaKindMode::Fixed(kind) => ("fixed", Some(media_kind_name(kind))),
        }
    }

    pub fn from_storage(mode: &str, fixed_kind: Option<&str>) -> (parsed: Result<
        MediaKindMode,
        IngestionModelError,
    >)
        ensures
            ({
                let kind_view = match fixed_kind {
                    Some(k) => Some(k@),
                    None => None,
                };
                match parsed {
                    Ok(m) => mode_from_storage_spec(mode@, kind_view) == Some(m),
                    Err(e) => mode_from_storage_spec(mode@, kind_view) is None && (e
                        == IngestionModelError::InvalidMediaKindMode || e
                        == IngestionModelError::InvalidMediaKind),
                }
            }),
    {
        match fixed_kind {
            None => {
                if str_equal(mode, "auto") {
                    Ok(MediaKindMode::Auto)
                } else {
                    Err(IngestionModelError::InvalidMediaKindMode)
                }
            },
            Some(kind) => {
                if str_equal(mode, "fixed") {
                    match parse_media_kind(kind) {
                        Ok(k) => Ok(MediaKindMode::Fixed(k)),
                        Err(e) => Err(e),
                    }
                } else {
                    Err(IngestionModelError::InvalidMediaKindMode)
                }
            },
        }
    }
}

#[derive(Debug, Clone, Copy, PartialEq, Eq, Structural)]
pub enum RulePlacement {
    Move,
    Copy,
    Hardlink,
    Symlink,
    Reflink,
}

pub open spec fn placement_name(placement: RulePlacement) -> Seq<char> {
    match placement {
        RulePlacement::Move => "move"@,
        RulePlacement::Copy => "copy"@,
        RulePlacement::Hardlink => "hardlink"@,
        RulePlacement::Symlink => "symlink"@,
        RulePlacement::Reflink => "reflink"@,
    }
}

pub open spec fn placement_from_name(name: Seq<char>) -> Option<RulePlacement> {
    if name == "move"@ {
        Some(RulePlacement::Move)
    } else if name == "copy"@ {
        Some(RulePlacement::Copy)
    } else if name == "hardlink"@ {
        Some(RulePlacement::Hardlink)
    } else if name == "symlink"@ {
        Some(RulePlacement::Symlink)
    } else if name == "reflink"@ {
        Some(RulePlacement::Reflink)
    } else {
        None
    }
}

impl RulePlacement {
    pub fn as_str(self) -> (name: &'static str)
        ensures
            name@ == placement_name(self),
    {
        match self {
            RulePlacement::Move => "move",
            RulePlacement::Copy => "copy",
            RulePlacement::Hardlink => "hardlink",
            RulePlacement::Symlink => "symlink",
            RulePlacement::Reflink => "reflink",
        }
    }

    pub fn from_storage(value: &str) -> (parsed: Result<RulePlacement, IngestionModelError>)
        ensures
            match parsed {
                Ok(p) => placement_from_name(value@) == Some(p),
                Err(e) => placement_from_name(value@) is None && e
                    == IngestionModelError::InvalidPlacement,
            },
    {
        if str_equal(value, "move") {
            Ok(RulePlacement::Move)
        } else if str_equal(value, "copy") {
            Ok(RulePlacement::Copy)
        } else if str_equal(value, "hardlink") {
            Ok(RulePlacement::Hardlink)
        } else if str_equal(value, "symlink") {
            Ok(RulePlacement::Symlink)
        } else if str_equal(value, "reflink") {
            Ok(RulePlacement::Reflink)
        } else {
            Err(IngestionModelError::InvalidPlacement)
        }
    }
}

#[derive(Debug, Clone, Copy, PartialEq, Eq, Structural)]
pub enum RuleStatus {
    Watching,
    Processing,
    NeedsReview,
    Paused,
    Error,
}

pub open spec fn status_name(status: RuleStatus) -> Seq<char> {
    match status {
        RuleStatus::Watching => "watching"@,
        RuleStatus::Processing => "processing"@,
        RuleStatus::NeedsReview => "needs_review"@,
        RuleStatus::Paused => "paused"@,
        RuleStatus::Error => "error"@,
    }
}

pub open spec fn status_from_name(name: Seq<char>) -> Option<RuleStatus> {
    if name == "watching"@ {
        Some(RuleStatus::Watching)
    } else if name == "processing"@ {
        Some(RuleStatus::Processing)
    } else if name == "needs_review"@ {
        Some(RuleStatus::NeedsReview)
    } else if name == "paused"@ {
        Some(RuleStatus::Paused)
    } else if name == "error"@ {
        Some(RuleStatus::Error)
    } else {
        None
    }
}

impl RuleStatus {
    pub fn as_str(self) -> (name: &'static str)
        ensures
            name@ == status_name(self),
    {
        match self {
            RuleStatus::Watching => "watching",
            RuleStatus::Processing => "processing",
            RuleStatus::NeedsReview => "needs_review",
            RuleStatus::Paused => "paused",
            RuleStatus::Error => "error",
        }
    }

    pub fn from_storage(value: &str) -> (parsed: Result<RuleStatus, IngestionModelError>)
        ensures
            match parsed {
                Ok(s) => status_from_name(value@) == Some(s),
                Err(e) => status_from_name(value@) is None && e
                    == IngestionModelError::InvalidStatus,
            },
    {
        if str_equal(value, "watching") {
            Ok(RuleStatus::Watching)
        } else if str_equal(value, "processing") {
            Ok(RuleStatus::Processing)
        } else if str_equal(value, "needs_review") {
            Ok(RuleStatus::NeedsReview)
        } else if str_equal(value, "paused") {
            Ok(RuleStatus::Paused)
        } else if str_equal(value, "error") {
            Ok(RuleStatus::Error)
        } else {
            Err(IngestionModelError::InvalidStatus)
        }
    }
}


/// A directory named by a configured root and a path relative to it.
#[derive(Debug, PartialEq, Eq)]
pub struct RuleDirectory {
    root_id: String,
    relative_path: String,
}

impl RuleDirectory {
    #[verifier::type_invariant]
    spec fn well_formed(self) -> bool {
        valid_required_text(self.root_id@, MAX_ROOT_ID_BYTES as nat) && valid_optional_text(
            self.relative_path@,
            MAX_RELATIVE_PATH_BYTES as nat,
        )
    }

    pub closed spec fn root_id_view(&self) -> Seq<char> {
        self.root_id@
    }

    pub closed spec fn relative_path_view(&self) -> Seq<char> {
        self.relative_path@
    }

    pub fn new(root_id: String, relative_path: String) -> (directory: Result<
        RuleDirectory,
        IngestionModelError,
    >)
        ensures
            directory is Ok <==> valid_required_text(root_id@, MAX_ROOT_ID_BYTES as nat)
                && valid_optional_text(relative_path@, MAX_RELATIVE_PATH_BYTES as nat),
            match directory {
                Ok(d) => d.root_id_view() == root_id@ && d.relative_path_view()
                    == relative_path@,
                Err(IngestionModelError::InvalidRequiredText { field, max }) => field@
                    == "root id"@ && max == MAX_ROOT_ID_BYTES && !valid_required_text(
                    root_id@,
                    MAX_ROOT_ID_BYTES as nat,
                ),
                Err(IngestionModelError::InvalidOptionalText { field, max }) => field@
                    == "relative path"@ && max == MAX_RELATIVE_PATH_BYTES && valid_required_text(
                    root_id@,
                    MAX_ROOT_ID_BYTES as nat,
                ),
                Err(_) => false,
            },
    {
        match validate_required("root id", root_id.as_str(), MAX_ROOT_ID_BYTES) {
            Ok(()) => {},
            Err(e) => return Err(e),
        }
        match validate_optional("relative path", relative_path.as_str(), MAX_RELATIVE_PATH_BYTES) {
            Ok(()) => {},
            Err(e) => return Err(e),
        }
        Ok(RuleDirectory { root_id, relative_path })
    }

    pub fn root_id(&self) -> (root_id: &str)
        ensures
            root_id@ == self.root_id_view(),
            valid_required_text(root_id@, MAX_ROOT_ID_BYTES as nat),
    {
        proof {
            use_type_invariant(self);
        }
        self.root_id.as_str()
    }

    pub fn relative_path(&self) -> (path: &str)
        ensures
            path@ == self.relative_path_view(),
            valid_optional_text(path@, MAX_RELATIVE_PATH_BYTES as nat),
    {
        proof {
            use_type_invariant(self);
        }
        self.relative_path.as_str()
    }
}

/// Validated settings of one ingestion rule, before it is stored.
#[derive(Debug, PartialEq, Eq)]
pub struct IngestionRuleInput {
    name: String,
    source: RuleDirectory,
    destination: RuleDirectory,
    media_kind_mode: MediaKindMode,
    placement: RulePlacement,
    path_template_override: Option<String>,
    enabled: bool,
    last_error: Option<String>,
}

/// The view of an optional string.
pub open spec fn opt_view(value: Option<String>) -> Option<Seq<char>> {
    match value {
        Some(s) => Some(s@),
        None => None,
    }
}

impl IngestionRuleInput {
    #[verifier::type_invariant]
    spec fn well_formed(self) -> bool {
        &&& valid_required_text(self.name@, MAX_NAME_BYTES as nat)
        &&& trim_spec(self.name@) == self.name@
        &&& match self.path_template_override {
            Some(t) => valid_required_text(t@, MAX_TEMPLATE_BYTES as nat),
            None => true,
        }
        &&& match self.last_error {
            Some(e) => valid_required_text(e@, MAX_LAST_ERROR_BYTES as nat),
            None => true,
        }
    }

    pub closed spec fn name_view(&self) -> Seq<char> {
        self.name@
    }

    pub closed spec fn source_view(&self) -> RuleDirectory {
        self.source
    }

    pub closed spec fn destination_view(&self) -> RuleDirectory {
        self.destination
    }

    pub closed spec fn media_kind_mode_view(&self) -> MediaKindMode {
        self.media_kind_mode
    }

    pub closed spec fn placement_view(&self) -> RulePlacement {
        self.placement
    }

    pub closed spec fn path_template_override_view(&self) -> Option<Seq<char>> {
        opt_view(self.path_template_override)
    }

    pub closed spec fn enabled_view(&self) -> bool {
        self.enabled
    }

    pub closed spec fn last_error_view(&self) -> Option<Seq<char>> {
        opt_view(self.last_error)
    }

    /// A new enabled rule with its name trimmed of surrounding white space.
    pub fn new(
        name: String,
        source: RuleDirectory,
        destination: RuleDirectory,
        media_kind_mode: MediaKindMode,
        placement: RulePlacement,
    ) -> (input: Result<IngestionRuleInput, IngestionModelError>)
        ensures
            input is Ok <==> valid_required_text(trim_spec(name@), MAX_NAME_BYTES as nat),
            match input {
                Ok(i) => {
                    &&& i.name_view() == trim_spec(name@)
                    &&& i.source_view() == source
                    &&& i.destination_view() == destination
                    &&& i.media_kind_mode_view() == media_kind_mode
                    &&& i.placement_view() == placement
                    &&& i.path_template_override_view() is None
                    &&& i.enabled_view()
                    &&& i.last_error_view() is None
                },
                Err(e) => is_required_error(Err(e), "rule name"@, MAX_NAME_BYTES),
            },
    {
        let trimmed = trim(name.as_str());
        match validate_required("rule name", trimmed.as_str(), MAX_NAME_BYTES) {
            Ok(()) => {},
            Err(e) => return Err(e),
        }
        proof {
            lemma_trim_idempotent(name@);
        }
        let name = trimmed;
        Ok(
            IngestionRuleInput {
                name,
                source,
                destination,
                media_kind_mode,
                placement,
                path_template_override: None,
                enabled: true,
                last_error: None,
            },
        )
    }

    pub fn with_path_template_override(self, value: String) -> (input: Result<
        IngestionRuleInput,
        IngestionModelError,
    >)
        ensures
            input is Ok <==> valid_required_text(value@, MAX_TEMPLATE_BYTES as nat),
            match input {
                Ok(i) => i.path_template_override_view() == Some(value@) && i.same_except_template(
                    self,
                ),
                Err(e) => is_required_error(Err(e), "path template override"@, MAX_TEMPLATE_BYTES),
            },
    {
        proof {
            use_type_invariant(&self);
        }
        match validate_required("path template override", value.as_str(), MAX_TEMPLATE_BYTES) {
            Ok(()) => {},
            Err(e) => return Err(e),
        }
        Ok(IngestionRuleInput { path_template_override: Some(value), ..self })
    }

    pub open spec fn same_except_template(&self, other: IngestionRuleInput) -> bool {
        &&& self.name_view() == other.name_view()
        &&& self.source_view() == other.source_view()
        &&& self.destination_view() == other.destination_view()
        &&& self.media_kind_mode_view() == other.media_kind_mode_view()
        &&& self.placement_view() == other.placement_view()
        &&& self.enabled_view() == other.enabled_view()
        &&& self.last_error_view() == other.last_error_view()
    }

    pub open spec fn same_except_last_error(&self, other: IngestionRuleInput) -> bool {
        &&& self.name_view() == other.name_view()
        &&& self.source_view() == other.source_view()
        &&& self.destination_view() == other.destination_view()
        &&& self.media_kind_mode_view() == other.media_kind_mode_view()
        &&& self.placement_view() == other.placement_view()
        &&& self.enabled_view() == other.enabled_view()
        &&& self.path_template_override_view() == other.path_template_override_view()
    }

    pub fn with_enabled(self, enabled: bool) -> (input: IngestionRuleInput)
        ensures
            input.enabled_view() == enabled,
            input.last_error_view() == self.last_error_view(),
            input.name_view() == self.name_view(),
            input.source_view() == self.source_view(),
            input.destination_view() == self.destination_view(),
            input.media_kind_mode_view() == self.media_kind_mode_view(),
            input.placement_view() == self.placement_view(),
            input.path_template_override_view() == self.path_template_override_view(),
    {
        proof {
            use_type_invariant(&self);
        }
        IngestionRuleInput { enabled, ..self }
    }

    pub fn with_last_error(self, value: String) -> (input: Result<
        IngestionRuleInput,
        IngestionModelError,
    >)
        ensures
            input is Ok <==> valid_required_text(value@, MAX_LAST_ERROR_BYTES as nat),
            match input {
                Ok(i) => i.last_error_view() == Some(value@) && i.same_except_last_error(self),
                Err(e) => is_required_error(Err(e), "last error"@, MAX_LAST_ERROR_BYTES),
            },
    {
        proof {
            use_type_invariant(&self);
        }
        match validate_required("last error", value.as_str(), MAX_LAST_ERROR_BYTES) {
            Ok(()) => {},
            Err(e) => return Err(e),
        }
        Ok(IngestionRuleInput { last_error: Some(value), ..self })
    }

    pub fn name(&self) -> (name: &str)
        ensures
            name@ == self.name_view(),
            valid_required_text(name@, MAX_NAME_BYTES as nat),
            trim_spec(name@) == name@,
    {
        proof {
            use_type_invariant(self);
        }
        self.name.as_str()
    }

    pub fn source(&self) -> (source: &RuleDirectory)
        ensures
            *source == self.source_view(),
    {
        &self.source
    }

    pub fn destination(&self) -> (destination: &RuleDirectory)
        ensures
            *destination == self.destination_view(),
    {
        &self.destination
    }

    pub fn media_kind_mode(&self) -> (mode: MediaKindMode)
        ensures
            mode == self.media_kind_mode_view(),
    {
        self.media_kind_mode
    }

    pub fn placement(&self) -> (placement: RulePlacement)
        ensures
            placement == self.placement_view(),
    {
        self.placement
    }

    pub fn path_template_override(&self) -> (template: Option<&str>)
        ensures
            match template {
                Some(t) => self.path_template_override_view() == Some(t@),
                None => self.path_template_override_view() is None,
            },
    {
        match &self.path_template_override {
            Some(t) => Some(t.as_str()),
            None => None,
        }
    }

    pub fn enabled(&self) -> (enabled: bool)
        ensures
            enabled == self.enabled_view(),
    {
        self.enabled
    }

    pub fn last_error(&self) -> (error: Option<&str>)
        ensures
            match error {
                Some(e) => self.last_error_view() == Some(e@),
                None => self.last_error_view() is None,
            },
    {
        match &self.last_error {
            Some(e) => Some(e.as_str()),
            None => None,
        }
    }
}

proof fn lemma_trim_idempotent(s: Seq<char>)
    ensures
        trim_spec(trim_spec(s)) == trim_spec(s),
{
    crate::text::lemma_trim_idempotent(s);
}

/// Database identity of an ingestion rule: always positive.
#[derive(Debug, Clone, Copy, PartialEq, Eq, Structural)]
pub struct IngestionRuleId {
    value: i64,
}

impl IngestionRuleId {
    #[verifier::type_invariant]
    spec fn positive(self) -> bool {
        self.value > 0
    }

    pub closed spec fn id(self) -> i64 {
        self.value
    }

    pub fn get(self) -> (value: i64)
        ensures
            value == self.id(),
            value > 0,
    {
        proof {
            use_type_invariant(&self);
        }
        self.value
    }

    pub fn from_database(value: i64) -> (id: Result<IngestionRuleId, IngestionModelError>)
        ensures
            id is Ok <==> value > 0,
            match id {
                Ok(i) => i.id() == value,
                Err(e) => e == IngestionModelError::InvalidRuleId,
            },
    {
        if value > 0 {
            Ok(IngestionRuleId { value })
        } else {
            Err(IngestionModelError::InvalidRuleId)
        }
    }
}

/// The stored parts of an ingestion rule.
pub struct IngestionRuleParts {
    pub id: IngestionRuleId,
    pub input: IngestionRuleInput,
    pub created_at_ms: i64,
    pub updated_at_ms: i64,
}

/// A stored ingestion rule.
#[derive(Debug, Clone, PartialEq, Eq)]
pub struct IngestionRule {
    id: IngestionRuleId,
    input: IngestionRuleInput,
    created_at_ms: i64,
    updated_at_ms: i64,
}

impl IngestionRule {
    pub closed spec fn id_view(&self) -> IngestionRuleId {
        self.id
    }

    pub closed spec fn input_view(&self) -> IngestionRuleInput {
        self.input
    }

    pub closed spec fn created_at_view(&self) -> i64 {
        self.created_at_ms
    }

    pub closed spec fn updated_at_view(&self) -> i64 {
        self.updated_at_ms
    }

    pub fn from_parts(parts: IngestionRuleParts) -> (rule: IngestionRule)
        ensures
            rule.id_view() == parts.id,
            rule.input_view() == parts.input,
            rule.created_at_view() == parts.created_at_ms,
            rule.updated_at_view() == parts.updated_at_ms,
    {
        IngestionRule {
            id: parts.id,
            input: parts.input,
            created_at_ms: parts.created_at_ms,
            updated_at_ms: parts.updated_at_ms,
        }
    }

    pub fn id(&self) -> (id: IngestionRuleId)
        ensures
            id == self.id_view(),
    {
        self.id
    }

    pub fn name(&self) -> (name: &str)
        ensures
            name@ == self.input_view().name_view(),
    {
        self.input.name()
    }

    pub fn source(&self) -> (source: &RuleDirectory)
        ensures
            *source == self.input_view().source_view(),
    {
        self.input.source()
    }

    pub fn destination(&self) -> (destination: &RuleDirectory)
        ensures
            *destination == self.input_view().destination_view(),
    {
        self.input.destination()
    }

    pub fn media_kind_mode(&self) -> (mode: MediaKindMode)
        ensures
            mode == self.input_view().media_kind_mode_view(),
    {
        self.input.media_kind_mode()
    }

    pub fn placement(&self) -> (placement: RulePlacement)
        ensures
            placement == self.input_view().placement_view(),
    {
        self.input.placement()
    }

    pub fn path_template_override(&self) -> (template: Option<&str>)
        ensures
            match template {
                Some(t) => self.input_view().path_template_override_view() == Some(t@),
                None => self.input_view().path_template_override_view() is None,
            },
    {
        self.input.path_template_override()
    }

    pub fn enabled(&self) -> (enabled: bool)
        ensures
            enabled == self.input_view().enabled_view(),
    {
        self.input.enabled()
    }

    pub fn last_error(&self) -> (error: Option<&str>)
        ensures
            match error {
                Some(e) => self.input_view().last_error_view() == Some(e@),
                None => self.input_view().last_error_view() is None,
            },
    {
        self.input.last_error()
    }

    pub fn created_at_ms(&self) -> (ms: i64)
        ensures
            ms == self.created_at_view(),
    {
        self.created_at_ms
    }

    pub fn updated_at_ms(&self) -> (ms: i64)
        ensures
            ms == self.updated_at_view(),
    {
        self.updated_at_ms
    }
}

/// What identifies one version of a discovered source: its path, size and
/// modification time.
#[derive(Debug, PartialEq, Eq)]
pub struct SourceFingerprint {
    relative_source_path: String,
    size_bytes: u64,
    modified_at_ms: i64,
}

impl SourceFingerprint {
    #[verifier::type_invariant]
    spec fn well_formed(self) -> bool {
        valid_required_text(self.relative_source_path@, MAX_RELATIVE_PATH_BYTES as nat)
            && self.size_bytes <= i64::MAX && self.modified_at_ms >= 0
    }

    pub closed spec fn path_view(&self) -> Seq<char> {
        self.relative_source_path@
    }

    pub closed spec fn size_view(&self) -> u64 {
        self.size_bytes
    }

    pub closed spec fn modified_view(&self) -> i64 {
        self.modified_at_ms
    }

    pub fn new(relative_source_path: String, size_bytes: u64, modified_at_ms: i64) -> (fingerprint:
        Result<SourceFingerprint, IngestionModelError>)
        ensures
            fingerprint is Ok <==> valid_required_text(
                relative_source_path@,
                MAX_RELATIVE_PATH_BYTES as nat,
            ) && size_bytes <= i64::MAX && modified_at_ms >= 0,
            match fingerprint {
                Ok(f) => f.path_view() == relative_source_path@ && f.size_view() == size_bytes
                    && f.modified_view() == modified_at_ms,
                Err(IngestionModelError::InvalidRequiredText { field, max }) => field@
                    == "relative source path"@ && max == MAX_RELATIVE_PATH_BYTES
                    && !valid_required_text(relative_source_path@, MAX_RELATIVE_PATH_BYTES as nat),
                Err(IngestionModelError::SourceSizeOutOfRange) => valid_required_text(
                    relative_source_path@,
                    MAX_RELATIVE_PATH_BYTES as nat,
                ) && size_bytes > i64::MAX,
                Err(IngestionModelError::ModifiedTimeOutOfRange) => valid_required_text(
                    relative_source_path@,
                    MAX_RELATIVE_PATH_BYTES as nat,
                ) && size_bytes <= i64::MAX && modified_at_ms < 0,
                Err(_) => false,
            },
    {
        match validate_required(
            "relative source path",
            relative_source_path.as_str(),
            MAX_RELATIVE_PATH_BYTES,
        ) {
            Ok(()) => {},
            Err(e) => return Err(e),
        }
        if size_bytes > i64::MAX as u64 {
            return Err(IngestionModelError::SourceSizeOutOfRange);
        }
        if modified_at_ms < 0 {
            return Err(IngestionModelError::ModifiedTimeOutOfRange);
        }
        Ok(SourceFingerprint { relative_source_path, size_bytes, modified_at_ms })
    }

    pub fn relative_source_path(&self) -> (path: &str)
        ensures
            path@ == self.path_view(),
    {
        self.relative_source_path.as_str()
    }

    pub fn size_bytes(&self) -> (size: u64)
        ensures
            size == self.size_view(),
    {
        self.size_bytes
    }

    pub fn modified_at_ms(&self) -> (ms: i64)
        ensures
            ms == self.modified_view(),
            ms >= 0,
    {
        proof {
            use_type_invariant(self);
        }
        self.modified_at_ms
    }

    /// The size as the signed integer the database stores.
    pub fn size_for_database(&self) -> (size: i64)
        ensures
            size as int == self.size_view() as int,
    {
        proof {
            use_type_invariant(self);
        }
        self.size_bytes as i64
    }
}

/// Database identity of a discovered ingestion source: always positive.
#[derive(Debug, Clone, Copy, PartialEq, Eq, Structural)]
pub struct IngestionSourceId {
    value: i64,
}

impl IngestionSourceId {
    #[verifier::type_invariant]
    spec fn positive(self) -> bool {
        self.value > 0
    }

    pub closed spec fn id(self) -> i64 {
        self.value
    }

    pub fn get(self) -> (value: i64)
        ensures
            value == self.id(),
            value > 0,
    {
        proof {
            use_type_invariant(&self);
        }
        self.value
    }

    pub fn from_database(value: i64) -> (id: Result<IngestionSourceId, IngestionModelError>)
        ensures
            id is Ok <==> value > 0,
            match id {
                Ok(i) => i.id() == value,
                Err(e) => e == IngestionModelError::InvalidSourceId,
            },
    {
        if value > 0 {
            Ok(IngestionSourceId { value })
        } else {
            Err(IngestionModelError::InvalidSourceId)
        }
    }
}

/// A source that waits for a person to pick its media kind.
#[derive(Debug, Clone, PartialEq, Eq)]
pub struct IngestionSourceReview {
    pub source_id: IngestionSourceId,
    pub rule_id: IngestionRuleId,
    pub relative_source_path: String,
    pub media_kinds: Vec<JobMediaKind>,
}

impl IngestionSourceReview {
    pub fn new(
        source_id: IngestionSourceId,
        rule_id: IngestionRuleId,
        relative_source_path: String,
        media_kinds: Vec<JobMediaKind>,
    ) -> (review: IngestionSourceReview)
        ensures
            review.source_id == source_id,
            review.rule_id == rule_id,
            review.relative_source_path@ == relative_source_path@,
            review.media_kinds@ == media_kinds@,
    {
        IngestionSourceReview { source_id, rule_id, relative_source_path, media_kinds }
    }

    pub fn source_id(&self) -> (id: IngestionSourceId)
        ensures
            id == self.source_id,
    {
        self.source_id
    }

    pub fn rule_id(&self) -> (id: IngestionRuleId)
        ensures
            id == self.rule_id,
    {
        self.rule_id
    }

    pub fn relative_source_path(&self) -> (path: &str)
        ensures
            path@ == self.relative_source_path@,
    {
        self.relative_source_path.as_str()
    }

    pub fn media_kinds(&self) -> (kinds: &[JobMediaKind])
        ensures
            kinds@ == self.media_kinds@,
    {
        self.media_kinds.as_slice()
    }
}

/// The stored parts of an ingestion source.
pub struct IngestionSourceParts {
    pub id: IngestionSourceId,
    pub rule_id: IngestionRuleId,
    pub fingerprint: SourceFingerprint,
    pub status: RuleStatus,
    pub job_id: Option<JobId>,
    pub created_at_ms: i64,
    pub updated_at_ms: i64,
}

/// A stored source discovered under a rule's source directory.
#[derive(Debug, Clone, PartialEq, Eq)]
pub struct IngestionSource {
    id: IngestionSourceId,
    rule_id: IngestionRuleId,
    fingerprint: SourceFingerprint,
    status: RuleStatus,
    job_id: Option<JobId>,
    created_at_ms: i64,
    updated_at_ms: i64,
}

impl IngestionSource {
    pub closed spec fn parts_view(&self) -> (
        IngestionSourceId,
        IngestionRuleId,
        SourceFingerprint,
        RuleStatus,
        Option<JobId>,
        i64,
        i64,
    ) {
        (
            self.id,
            self.rule_id,
            self.fingerprint,
            self.status,
            self.job_id,
            self.created_at_ms,
            self.updated_at_ms,
        )
    }

    pub fn from_parts(parts: IngestionSourceParts) -> (source: IngestionSource)
        ensures
            source.parts_view() == (
                parts.id,
                parts.rule_id,
                parts.fingerprint,
                parts.status,
                parts.job_id,
                parts.created_at_ms,
                parts.updated_at_ms,
            ),
    {
        IngestionSource {
            id: parts.id,
            rule_id: parts.rule_id,
            fingerprint: parts.fingerprint,
            status: parts.status,
            job_id: parts.job_id,
            created_at_ms: parts.created_at_ms,
            updated_at_ms: parts.updated_at_ms,
        }
    }

    pub fn id(&self) -> (id: IngestionSourceId)
        ensures
            id == self.parts_view().0,
    {
        self.id
    }

    pub fn rule_id(&self) -> (id: IngestionRuleId)
        ensures
            id == self.parts_view().1,
    {
        self.rule_id
    }

    pub fn fingerprint(&self) -> (fingerprint: &SourceFingerprint)
        ensures
            *fingerprint == self.parts_view().2,
    {
        &self.fingerprint
    }

    pub fn status(&self) -> (status: RuleStatus)
        ensures
            status == self.parts_view().3,
    {
        self.status
    }

    pub fn job_id(&self) -> (job: Option<JobId>)
        ensures
            job == self.parts_view().4,
    {
        self.job_id
    }

    pub fn created_at_ms(&self) -> (ms: i64)
        ensures
            ms == self.parts_view().5,
    {
        self.created_at_ms
    }

    pub fn updated_at_ms(&self) -> (ms: i64)
        ensures
            ms == self.parts_view().6,
    {
        self.updated_at_ms
    }
}

/// The outcome of reserving a source: newly reserved, or already known.
#[derive(Debug, Clone, PartialEq, Eq)]
pub enum SourceReservation {
    Reserved(IngestionSource),
    Existing(IngestionSource),
}

impl SourceReservation {
    pub fn is_reserved(&self) -> (reserved: bool)
        ensures
            reserved == (self is Reserved),
    {
        matches!(self, SourceReservation::Reserved(_))
    }

    pub fn source(&self) -> (source: &IngestionSource)
        ensures
            match self {
                SourceReservation::Reserved(s) => *source == s,
                SourceReservation::Existing(s) => *source == s,
            },
    {
        match self {
            SourceReservation::Reserved(source) => source,
            SourceReservation::Existing(source) => source,
        }
    }
}


impl Clone for RuleDirectory {
    fn clone(&self) -> (copy: Self)
        ensures
            copy == *self,
    {
        proof {
            use_type_invariant(self);
        }
        RuleDirectory { root_id: self.root_id.clone(), relative_path: self.relative_path.clone() }
    }
}

impl Clone for IngestionRuleInput {
    fn clone(&self) -> (copy: Self)
        ensures
            copy == *self,
    {
        proof {
            use_type_invariant(self);
        }
        IngestionRuleInput {
            name: self.name.clone(),
            source: self.source.clone(),
            destination: self.destination.clone(),
            media_kind_mode: self.media_kind_mode,
            placement: self.placement,
            path_template_override: match &self.path_template_override {
                Some(t) => Some(t.clone()),
                None => None,
            },
            enabled: self.enabled,
            last_error: match &self.last_error {
                Some(e) => Some(e.clone()),
                None => None,
            },
        }
    }
}

impl Clone for SourceFingerprint {
    fn clone(&self) -> (copy: Self)
        ensures
            copy == *self,
    {
        proof {
            use_type_invariant(self);
        }
        SourceFingerprint {
            relative_source_path: self.relative_source_path.clone(),
            size_bytes: self.size_bytes,
            modified_at_ms: self.modified_at_ms,
        }
    }
}


/// Reading back the stored name of a placement gives the same placement, and
/// no two placements share a name.
pub proof fn law_placement_name_round_trip(value: RulePlacement)
    ensures
        placement_from_name(placement_name(value)) == Some(value),
        forall|other: RulePlacement| placement_name(other) == placement_name(value) ==> other == value,
{
    reveal_strlit("move");
    assert("move"@.len() == 4 && "move"@[0] == 'm' && "move"@[1] == 'o');
    reveal_strlit("copy");
    assert("copy"@.len() == 4 && "copy"@[0] == 'c' && "copy"@[1] == 'o');
    reveal_strlit("hardlink");
    assert("hardlink"@.len() == 8 && "hardlink"@[0] == 'h' && "hardlink"@[1] == 'a');
    reveal_strlit("symlink");
    assert("symlink"@.len() == 7 && "symlink"@[0] == 's' && "symlink"@[1] == 'y');
    reveal_strlit("reflink");
    assert("reflink"@.len() == 7 && "reflink"@[0] == 'r' && "reflink"@[1] == 'e');
    assert(placement_name(RulePlacement::Move) == "move"@);
    assert(placement_name(RulePlacement::Copy) == "copy"@);
    assert(placement_name(RulePlacement::Hardlink) == "hardlink"@);
    assert(placement_name(RulePlacement::Symlink) == "symlink"@);
    assert(placement_name(RulePlacement::Reflink) == "reflink"@);
    assert forall|other: RulePlacement| placement_name(other) == placement_name(value) implies other == value by {
        if other != value {
            assert(placement_name(other).len() != placement_name(value).len() || placement_name(other)[0] != placement_name(value)[0] || placement_name(other)[1] != placement_name(value)[1]);
        }
    }
}

/// Reading back the stored name of a rule status gives the same status, and no
/// two statuses share a name.
pub proof fn law_status_name_round_trip(value: RuleStatus)
    ensures
        status_from_name(status_name(value)) == Some(value),
        forall|other: RuleStatus| status_name(other) == status_name(value) ==> other == value,
{
    reveal_strlit("watching");
    assert("watching"@.len() == 8 && "watching"@[0] == 'w' && "watching"@[1] == 'a');
    reveal_strlit("processing");
    assert("processing"@.len() == 10 && "processing"@[0] == 'p' && "processing"@[1] == 'r');
    reveal_strlit("needs_review");
    assert("needs_review"@.len() == 12 && "needs_review"@[0] == 'n' && "needs_review"@[1] == 'e');
    reveal_strlit("paused");
    assert("paused"@.len() == 6 && "paused"@[0] == 'p' && "paused"@[1] == 'a');
    reveal_strlit("error");
    assert("error"@.len() == 5 && "error"@[0] == 'e' && "error"@[1] == 'r');
    assert(status_name(RuleStatus::Watching) == "watching"@);
    assert(status_name(RuleStatus::Processing) == "processing"@);
    assert(status_name(RuleStatus::NeedsReview) == "needs_review"@);
    assert(status_name(RuleStatus::Paused) == "paused"@);
    assert(status_name(RuleStatus::Error) == "error"@);
    assert forall|other: RuleStatus| status_name(other) == status_name(value) implies other == value by {
        if other != value {
            assert(status_name(other).len() != status_name(value).len() || status_name(other)[0] != status_name(value)[0] || status_name(other)[1] != status_name(value)[1]);
        }
    }
}

/// Reading back the stored name of a media kind gives the same kind, and no two
/// kinds share a name.
pub proof fn law_media_kind_name_round_trip(value: JobMediaKind)
    ensures
        media_kind_from_name(media_kind_name_spec(value)) == Some(value),
        forall|other: JobMediaKind| media_kind_name_spec(other) == media_kind_name_spec(value) ==> other == value,
{
    reveal_strlit("anime");
    assert("anime"@.len() == 5 && "anime"@[0] == 'a' && "anime"@[1] == 'n');
    reveal_strlit("book");
    assert("book"@.len() == 4 && "book"@[0] == 'b' && "book"@[1] == 'o');
    reveal_strlit("movie");
    assert("movie"@.len() == 5 && "movie"@[0] == 'm' && "movie"@[1] == 'o');
    reveal_strlit("music");
    assert("music"@.len() == 5 && "music"@[0] == 'm' && "music"@[1] == 'u');
    reveal_strlit("television");
    assert("television"@.len() == 10 && "television"@[0] == 't' && "television"@[1] == 'e');
    assert(media_kind_name_spec(JobMediaKind::Anime) == "anime"@);
    assert(media_kind_name_spec(JobMediaKind::Book) == "book"@);
    assert(media_kind_name_spec(JobMediaKind::Movie) == "movie"@);
    assert(media_kind_name_spec(JobMediaKind::Music) == "music"@);
    assert(media_kind_name_spec(JobMediaKind::Television) == "television"@);
    assert forall|other: JobMediaKind| media_kind_name_spec(other) == media_kind_name_spec(value) implies other == value by {
        if other != value {
            assert(media_kind_name_spec(other).len() != media_kind_name_spec(value).len() || media_kind_name_spec(other)[0] != media_kind_name_spec(value)[0] || media_kind_name_spec(other)[1] != media_kind_name_spec(value)[1]);
        }
    }
}

/// The two stored columns of a media kind mode read back as the same mode.
pub proof fn law_media_kind_mode_round_trip(mode: MediaKindMode)
    ensures
        mode_from_storage_spec(mode_storage_spec(mode).0, mode_storage_spec(mode).1) == Some(mode),
{
    reveal_strlit("auto");
    reveal_strlit("fixed");
    assert("auto"@.len() == 4 && "fixed"@.len() == 5);
    if let MediaKindMode::Fixed(kind) = mode {
        law_media_kind_name_round_trip(kind);
    }
}

} // verus!
