//! The scrape-run endpoints: how a run reports its status and name, and the
//! checks on a request to start or correct a run.
use vstd::prelude::*;

use crate::api_error::{ApiError, Answer, answer_of, invalid_input, invalid_input_answer, plain_answer};
use crate::job_model::{JobId, JobMediaKind, JobState, is_terminal};
use crate::paths::{components, components_spec, file_name, file_name_spec};
use crate::text::{byte_len, contains_control, has_control, str_equal, trim, trim_spec, utf8_len};

verus! {

broadcast use vstd::string::group_string_axioms;

/// The status of a scrape run as its clients see it.
#[derive(Debug, Clone, Copy, PartialEq, Eq, Structural)]
pub enum RunStatus {
    Queued,
    Running,
    Succeeded,
    Failed,
    Cancelled,
}

pub open spec fn run_status_spec(state: JobState) -> RunStatus {
    match state {
        JobState::Queued => RunStatus::Queued,
        JobState::Scanning | JobState::Searching | JobState::Resolving | JobState::Planning
        | JobState::Writing => RunStatus::Running,
        JobState::AwaitingConfirmation | JobState::Failed | JobState::Interrupted => RunStatus::Failed,
        JobState::Completed => RunStatus::Succeeded,
        JobState::Cancelled => RunStatus::Cancelled,
    }
}

pub fn run_status(state: JobState) -> (status: RunStatus)
    ensures
        status == run_status_spec(state),
{
    match state {
        JobState::Queued => RunStatus::Queued,
        JobState::Scanning | JobState::Searching | JobState::Resolving | JobState::Planning
        | JobState::Writing => RunStatus::Running,
        JobState::AwaitingConfirmation | JobState::Failed | JobState::Interrupted => RunStatus::Failed,
        JobState::Completed => RunStatus::Succeeded,
        JobState::Cancelled => RunStatus::Cancelled,
    }
}

impl RunStatus {
    pub fn as_str(self) -> (name: &'static str)
        ensures
            name@ == match self {
                RunStatus::Queued => "queued"@,
                RunStatus::Running => "running"@,
                RunStatus::Succeeded => "succeeded"@,
                RunStatus::Failed => "failed"@,
                RunStatus::Cancelled => "cancelled"@,
            },
    {
        match self {
            RunStatus::Queued => "queued",
            RunStatus::Running => "running",
            RunStatus::Succeeded => "succeeded",
            RunStatus::Failed => "failed",
            RunStatus::Cancelled => "cancelled",
        }
    }
}

/// The name shown for a run: the last component of its input path, or
/// `Media item` when the path has none.
pub open spec fn item_name_spec(path: Seq<char>) -> Seq<char> {
    match file_name_spec(components_spec(path)) {
        Some(name) => if name.len() > 0 {
            name
        } else {
            "Media item"@
        },
        None => "Media item"@,
    }
}

pub fn item_name(path: &str) -> (name: String)
    ensures
        name@ == item_name_spec(path@),
{
    let parts = components(path);
    match file_name(&parts) {
        Some(name) => if name.as_str().is_empty() {
            "Media item".to_owned()
        } else {
            name
        },
        None => "Media item".to_owned(),
    }
}

/// A run's input path: 1 to 4096 bytes, not only white space, and without
/// control characters.
pub open spec fn valid_input_path(path: Seq<char>) -> bool {
    trim_spec(path).len() > 0 && utf8_len(path) <= 4096 && !has_control(path)
}

pub fn validate_input_path(path: &str) -> (result: Result<(), ApiError>)
    ensures
        result is Ok <==> valid_input_path(path@),
        result is Err ==> answer_of(result->Err_0) == invalid_input_answer(
            "input_path"@,
            "must contain between 1 and 4096 bytes without control characters"@,
        ),
{
    if trim(path).as_str().is_empty() || byte_len(path) > 4096 || contains_control(path) {
        Err(
            invalid(
                "input_path",
                "must contain between 1 and 4096 bytes without control characters",
            ),
        )
    } else {
        Ok(())
    }
}

/// Only unattended jobs are scrape runs.
pub fn ensure_run(unattended: bool) -> (result: Result<(), ApiError>)
    ensures
        result is Ok <==> unattended,
        result is Err ==> answer_of(result->Err_0) == plain_answer(
            404,
            "run_not_found"@,
            "Scrape run was not found"@,
        ),
{
    if unattended {
        Ok(())
    } else {
        Err(ApiError::plain(404, "run_not_found", "Scrape run was not found"))
    }
}

/// A run id from a request: it must be positive.
pub fn parse_id(value: i64) -> (result: Result<JobId, ApiError>)
    ensures
        value > 0 ==> result is Ok && result->Ok_0.id() == value,
        value <= 0 ==> result is Err && answer_of(result->Err_0) == invalid_input_answer(
            "id"@,
            "must be a positive integer"@,
        ),
{
    match JobId::from_database(value) {
        Ok(id) => Ok(id),
        Err(_) => Err(invalid("id", "must be a positive integer")),
    }
}

/// A refused request field.
pub fn invalid(field: &str, message: &str) -> (e: ApiError)
    ensures
        answer_of(e) == invalid_input_answer(field@, message@),
{
    invalid_input(field, message)
}

/// Where the input of a new scrape comes from.
#[derive(Debug, PartialEq, Eq)]
pub enum NewInput {
    /// The workspace directory named in the request.
    Directory,
    /// The path given in the request.
    Path(String),
}

/// What a request for a new scrape must name: a media kind, and exactly one
/// of a workspace directory and an input path.
pub open spec fn new_input_result(
    media_kind: Option<JobMediaKind>,
    has_source: bool,
    input_path: Option<Seq<char>>,
) -> Result<(JobMediaKind, Option<Seq<char>>), Answer> {
    if media_kind is None {
        Err(invalid_input_answer("media_kind"@, "is required for a new scrape"@))
    } else if has_source && input_path is Some {
        Err(invalid_input_answer("source"@, "cannot be combined with input_path"@))
    } else if has_source {
        Ok((media_kind->Some_0, None))
    } else if input_path is Some {
        Ok((media_kind->Some_0, input_path))
    } else {
        Err(invalid_input_answer("source"@, "is required for a new scrape"@))
    }
}

/// Decides where a new scrape's input comes from.
pub fn resolve_new_input(
    media_kind: Option<JobMediaKind>,
    has_source: bool,
    input_path: Option<&str>,
) -> (result: Result<(JobMediaKind, NewInput), ApiError>)
    ensures
        match new_input_result(
            media_kind,
            has_source,
            match input_path {
                Some(p) => Some(p@),
                None => None,
            },
        ) {
            Ok((kind, None)) => result is Ok && result->Ok_0.0 == kind && result->Ok_0.1
                is Directory,
            Ok((kind, Some(p))) => result is Ok && result->Ok_0.0 == kind && result->Ok_0.1 is Path
                && result->Ok_0.1->Path_0@ == p,
            Err(a) => result is Err && answer_of(result->Err_0) == a,
        },
{
    let kind = match media_kind {
        Some(k) => k,
        None => return Err(invalid("media_kind", "is required for a new scrape")),
    };
    match (has_source, input_path) {
        (true, Some(_)) => Err(invalid("source", "cannot be combined with input_path")),
        (true, None) => Ok((kind, NewInput::Directory)),
        (false, Some(path)) => Ok((kind, NewInput::Path(path.to_owned()))),
        (false, None) => Err(invalid("source", "is required for a new scrape")),
    }
}

/// A correction request names a target and no workspace directory.
pub fn check_correction_request(has_source: bool, has_target: bool) -> (result: Result<(), ApiError>)
    ensures
        result is Ok <==> !has_source && has_target,
        has_source ==> result is Err && answer_of(result->Err_0) == invalid_input_answer(
            "source"@,
            "must be omitted for a correction"@,
        ),
        !has_source && !has_target ==> result is Err && answer_of(result->Err_0)
            == invalid_input_answer("target"@, "is required when correcting an earlier scrape"@),
{
    if has_source {
        return Err(invalid("source", "must be omitted for a correction"));
    }
    if !has_target {
        return Err(invalid("target", "is required when correcting an earlier scrape"));
    }
    Ok(())
}

/// What a correction must agree with in the scrape it corrects: that one
/// completed with recorded outputs, and the request repeats its media kind
/// and input path if it gives them.
pub open spec fn correction_result(
    parent_state: JobState,
    parent_outputs: nat,
    parent_kind: JobMediaKind,
    parent_path: Seq<char>,
    media_kind: Option<JobMediaKind>,
    input_path: Option<Seq<char>>,
) -> Result<(), Answer> {
    if parent_state != JobState::Completed || parent_outputs == 0 {
        Err(
            plain_answer(
                409,
                "run_not_correctable"@,
                "Only a completed scrape with recorded outputs can be corrected"@,
            ),
        )
    } else if media_kind is Some && media_kind->Some_0 != parent_kind {
        Err(invalid_input_answer("media_kind"@, "must match the corrected scrape"@))
    } else if input_path is Some && input_path->Some_0 != parent_path {
        Err(invalid_input_answer("input_path"@, "must match the corrected scrape"@))
    } else {
        Ok(())
    }
}

/// Checks a correction against the scrape it corrects; on success the
/// correction scrapes that one's media kind and input path.
pub fn check_correction(
    parent_state: JobState,
    parent_outputs: usize,
    parent_kind: JobMediaKind,
    parent_path: &str,
    media_kind: Option<JobMediaKind>,
    input_path: Option<&str>,
) -> (result: Result<(JobMediaKind, String), ApiError>)
    ensures
        match correction_result(
            parent_state,
            parent_outputs as nat,
            parent_kind,
            parent_path@,
            media_kind,
            match input_path {
                Some(p) => Some(p@),
                None => None,
            },
        ) {
            Ok(()) => result is Ok && result->Ok_0.0 == parent_kind && result->Ok_0.1@
                == parent_path@,
            Err(a) => result is Err && answer_of(result->Err_0) == a,
        },
{
    if parent_state != JobState::Completed || parent_outputs == 0 {
        return Err(
            ApiError::plain(
                409,
                "run_not_correctable",
                "Only a completed scrape with recorded outputs can be corrected",
            ),
        );
    }
    match media_kind {
        Some(kind) => if kind != parent_kind {
            return Err(invalid("media_kind", "must match the corrected scrape"));
        },
        None => {},
    }
    match input_path {
        Some(path) => if !str_equal(path, parent_path) {
            return Err(invalid("input_path", "must match the corrected scrape"));
        },
        None => {},
    }
    Ok((parent_kind, parent_path.to_owned()))
}

/// Runs that stopped unsuccessfully may be retried.
pub open spec fn retryable(state: JobState) -> bool {
    state == JobState::AwaitingConfirmation || state == JobState::Failed || state == JobState::Interrupted
        || state == JobState::Cancelled
}

pub fn check_retry_state(state: JobState) -> (result: Result<(), ApiError>)
    ensures
        result is Ok <==> retryable(state),
        result is Err ==> answer_of(result->Err_0) == plain_answer(
            409,
            "run_state_conflict"@,
            "Run can only be retried after it stops unsuccessfully"@,
        ),
{
    match state {
        JobState::AwaitingConfirmation | JobState::Failed | JobState::Interrupted | JobState::Cancelled => Ok(()),
        _ => Err(ApiError::plain(
            409,
            "run_state_conflict",
            "Run can only be retried after it stops unsuccessfully",
        )),
    }
}

/// A retry records the run it repeats only when that run already wrote
/// some output.
pub fn retry_of(id: i64, succeeded_operations: usize) -> (link: Option<i64>)
    ensures
        succeeded_operations > 0 ==> link == Some(id),
        succeeded_operations == 0 ==> link is None,
{
    if succeeded_operations > 0 {
        Some(id)
    } else {
        None
    }
}

/// The status of a run request: `202 Accepted` when a new run was queued,
/// `200 OK` when an identical one already existed.
pub fn creation_status(created: bool) -> (status: u16)
    ensures
        created ==> status == 202,
        !created ==> status == 200,
{
    if created {
        202
    } else {
        200
    }
}

/// A scrape target as a request names it.
#[derive(Debug, Clone)]
pub struct TargetRequest {
    pub provider: String,
    pub namespace: String,
    pub value: String,
    pub media_kind: JobMediaKind,
}

/// How a scrape picks its metadata.
#[derive(Debug, Clone)]
pub enum ScrapeSelection {
    /// The best candidate of a search.
    Automatic,
    /// The work the target names.
    Exact(TargetRequest),
}

/// Checks the target of a scrape. `constructed` says whether the provider
/// target could be built from the request's provider and identifier; it is
/// consulted only after the TMDB namespace rule.
pub fn validated_selection(media_kind: JobMediaKind, target: Option<TargetRequest>, constructed: bool) -> (selection: Result<ScrapeSelection, ApiError>)
    ensures
        match target {
            None => selection matches Ok(ScrapeSelection::Automatic),
            Some(t) => if t.provider@ == "tmdb"@ && t.namespace@ != "tmdb"@ {
                selection is Err && answer_of(selection->Err_0) == invalid_input_answer(
                    "target"@,
                    "TMDB IDs must use the tmdb namespace"@,
                )
            } else if !constructed {
                selection is Err && answer_of(selection->Err_0) == invalid_input_answer(
                    "target"@,
                    "must contain a valid provider and external ID"@,
                )
            } else if t.media_kind != media_kind {
                selection is Err && answer_of(selection->Err_0) == invalid_input_answer(
                    "target"@,
                    "media kind must match the scrape"@,
                )
            } else {
                selection matches Ok(ScrapeSelection::Exact(chosen)) && chosen.provider@ == t.provider@
                    && chosen.namespace@ == t.namespace@ && chosen.value@ == t.value@ && chosen.media_kind == t.media_kind
            },
        },
{
    let target = match target {
        None => {
            return Ok(ScrapeSelection::Automatic);
        },
        Some(target) => target,
    };
    if str_equal(target.provider.as_str(), "tmdb") && !str_equal(target.namespace.as_str(), "tmdb") {
        return Err(invalid("target", "TMDB IDs must use the tmdb namespace"));
    }
    if !constructed {
        return Err(invalid("target", "must contain a valid provider and external ID"));
    }
    if target.media_kind != media_kind {
        return Err(invalid("target", "media kind must match the scrape"));
    }
    Ok(ScrapeSelection::Exact(target))
}

/// A finished job's run tells how it finished: each of completed, failed and
/// cancelled has a status of its own, a run succeeds exactly when its job
/// completed and is cancelled exactly when its job was cancelled.
pub proof fn law_finished_runs_keep_their_outcome(a: JobState, b: JobState)
    ensures
        is_terminal(a) && is_terminal(b) && a != b ==> run_status_spec(a) != run_status_spec(b),
        (run_status_spec(a) == RunStatus::Succeeded) <==> a == JobState::Completed,
        (run_status_spec(a) == RunStatus::Cancelled) <==> a == JobState::Cancelled,
{
}

} // verus!
