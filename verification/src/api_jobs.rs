//! How the job endpoints answer failures of the job runtime and the store,
//! and the checks they apply to request fields and headers.
use vstd::prelude::*;

use crate::api_error::{
    ApiError, Answer, answer_of, detail_answer, id_detail, invalid_input, invalid_input_answer,
    is_detailed, is_invalid_input, is_problem, plain_answer,
};
use crate::fs_policy::FsPolicyError;
use crate::ingestion_runtime::RuleJobError;
use crate::job_model::{JobId, JobOrganizationDto, JobState, state_name};
use crate::numbers::{digits_spec, format_unsigned, signed_decimal};
use crate::store::StoreError;
use crate::text::{byte_len, chars_of, concat_str, has_control, contains_control, trim, trim_spec, utf8_len};

verus! {

broadcast use vstd::string::group_string_axioms;

/// A failure reported by the scraping SDK, as far as the job flow tells
/// failures apart.
#[derive(Debug, Clone, PartialEq, Eq)]
pub enum SdkFailure {
    CandidateOutOfBounds { index: usize, length: usize },
    Other(String),
}

/// Why a worker's scan, review or planning flow failed.
#[derive(Debug, Clone, PartialEq, Eq)]
pub enum JobFlowError {
    InvalidInput(String),
    Local(String),
    Sdk(SdkFailure),
    BlockingTask(String),
    IndexOverflow,
    MissingBookIsbn,
    Planning(String),
    Fingerprint(String),
    CountOverflow,
}

/// Why a job runtime operation failed.
#[derive(Debug)]
pub enum RuntimeError {
    Store(StoreError),
    FilesystemPolicy(FsPolicyError),
    OrganizationFilesystemPolicy(FsPolicyError),
    CancellationConflict(JobState),
    ReviewConflict(JobState),
    ArtifactConflict(JobState),
    ExecutionConflict(JobState),
    ConflictAcknowledgementMismatch { expected: u64 },
    ApprovalNotEnabled,
    WorkerFlowUnavailable,
    StalePlan,
    ExecutionTaskClosed,
    ExecutionShuttingDown,
    CountOverflow,
    Flow(JobFlowError),
    EventHistoryExpired,
    InvalidEventCursor,
    EventSequenceExhausted,
    QueueUnavailable,
}

/// The answer for a job that does not exist.
pub open spec fn job_not_found_answer(id: i64) -> Answer {
    detail_answer(404, "job_not_found"@, "Job not found"@, "job_id"@, signed_decimal(id as int))
}

pub fn not_found(id: i64) -> (e: ApiError)
    ensures
        answer_of(e) == job_not_found_answer(id),
{
    id_detail(404, "job_not_found", "Job not found", "job_id", id)
}

/// The answer for each store failure.
pub open spec fn store_error_answer(error: StoreError) -> Answer {
    match error {
        StoreError::NotFound { id } => job_not_found_answer(id),
        StoreError::IdempotencyConflict { .. } => plain_answer(
            409,
            "idempotency_conflict"@,
            "Idempotency key does not match the existing execution request"@,
        ),
        StoreError::InvalidTransition { .. }
        | StoreError::StateConflict { .. }
        | StoreError::ExecutionReservationRequired { .. }
        | StoreError::ReservedExecutionRetry { .. } => plain_answer(
            409,
            "job_state_conflict"@,
            "Job state changed before the request could be applied"@,
        ),
        _ => plain_answer(500, "job_store_error"@, "Persistent job operation failed"@),
    }
}

pub fn map_store_error(error: &StoreError) -> (e: ApiError)
    ensures
        answer_of(e) == store_error_answer(*error),
{
    match error {
        StoreError::NotFound { id } => not_found(*id),
        StoreError::IdempotencyConflict { .. } => ApiError::plain(
            409,
            "idempotency_conflict",
            "Idempotency key does not match the existing execution request",
        ),
        StoreError::InvalidTransition { .. }
        | StoreError::StateConflict { .. }
        | StoreError::ExecutionReservationRequired { .. }
        | StoreError::ReservedExecutionRetry { .. } => ApiError::plain(
            409,
            "job_state_conflict",
            "Job state changed before the request could be applied",
        ),
        _ => ApiError::plain(500, "job_store_error", "Persistent job operation failed"),
    }
}

/// The reason given when the acknowledged conflicts do not match.
pub open spec fn acknowledgement_reason(expected: u64) -> Seq<char> {
    if expected == 0 {
        "must be empty when the selected candidate has no conflicts"@
    } else {
        "must acknowledge indexes 0 through "@ + digits_spec((expected - 1) as nat, 10)
    }
}

/// A state conflict answer that names the current state.
pub open spec fn state_conflict_answer(message: Seq<char>, state: JobState) -> Answer {
    detail_answer(409, "job_state_conflict"@, message, "state"@, state_name(state))
}

/// The answer for each runtime failure.
pub open spec fn runtime_error_answer(error: RuntimeError) -> Answer {
    match error {
        RuntimeError::Store(e) => store_error_answer(e),
        RuntimeError::FilesystemPolicy(_) => invalid_input_answer(
            "input_path"@,
            "must resolve beneath a configured media root without symlink escapes"@,
        ),
        RuntimeError::OrganizationFilesystemPolicy(_) => invalid_input_answer(
            "organization.destination_path"@,
            "must resolve to a configured media directory without symlink escapes"@,
        ),
        RuntimeError::CancellationConflict(s) => state_conflict_answer(
            "Job cannot be cancelled in its current state"@,
            s,
        ),
        RuntimeError::ReviewConflict(s) => state_conflict_answer(
            "Job cannot be reviewed in its current state"@,
            s,
        ),
        RuntimeError::ArtifactConflict(s) => state_conflict_answer(
            "Job artifacts are not available in its current state"@,
            s,
        ),
        RuntimeError::ExecutionConflict(s) => state_conflict_answer(
            "Job cannot be executed in its current state"@,
            s,
        ),
        RuntimeError::ConflictAcknowledgementMismatch { expected } => invalid_input_answer(
            "accepted_conflict_indexes"@,
            acknowledgement_reason(expected),
        ),
        RuntimeError::ApprovalNotEnabled => invalid_input_answer(
            "approved"@,
            "job input must enable apply before execution"@,
        ),
        RuntimeError::StalePlan => plain_answer(
            409,
            "stale_plan"@,
            "Reviewed output plan is no longer current"@,
        ),
        RuntimeError::Flow(JobFlowError::Sdk(SdkFailure::CandidateOutOfBounds { .. }))
        | RuntimeError::Flow(JobFlowError::IndexOverflow) => invalid_input_answer(
            "candidate_index"@,
            "must identify an available candidate"@,
        ),
        RuntimeError::QueueUnavailable => plain_answer(
            503,
            "scrape_queue_unavailable"@,
            "Scrape queue is unavailable"@,
        ),
        RuntimeError::WorkerFlowUnavailable
        | RuntimeError::ExecutionTaskClosed
        | RuntimeError::ExecutionShuttingDown
        | RuntimeError::CountOverflow
        | RuntimeError::Flow(_) => plain_answer(
            500,
            "job_execution_error"@,
            "Job review or execution failed"@,
        ),
        RuntimeError::EventHistoryExpired => plain_answer(
            409,
            "event_history_expired"@,
            "Requested job events are no longer available"@,
        ),
        RuntimeError::InvalidEventCursor => invalid_input_answer(
            "last-event-id"@,
            "must identify an event issued by this server runtime"@,
        ),
        RuntimeError::EventSequenceExhausted => plain_answer(
            503,
            "event_sequence_exhausted"@,
            "Job event service requires a restart"@,
        ),
    }
}

fn state_conflict(message: &'static str, state: JobState) -> (e: ApiError)
    ensures
        answer_of(e) == state_conflict_answer(message@, state),
{
    ApiError::detailed(409, "job_state_conflict", message, "state", state.as_str())
}

/// Answers a failed job runtime operation.
pub fn map_runtime_error(error: RuntimeError) -> (e: ApiError)
    ensures
        answer_of(e) == runtime_error_answer(error),
{
    match error {
        RuntimeError::Store(error) => map_store_error(&error),
        RuntimeError::FilesystemPolicy(_) => invalid_input(
            "input_path",
            "must resolve beneath a configured media root without symlink escapes",
        ),
        RuntimeError::OrganizationFilesystemPolicy(_) => invalid_input(
            "organization.destination_path",
            "must resolve to a configured media directory without symlink escapes",
        ),
        RuntimeError::CancellationConflict(state) => state_conflict(
            "Job cannot be cancelled in its current state",
            state,
        ),
        RuntimeError::ReviewConflict(state) => state_conflict(
            "Job cannot be reviewed in its current state",
            state,
        ),
        RuntimeError::ArtifactConflict(state) => state_conflict(
            "Job artifacts are not available in its current state",
            state,
        ),
        RuntimeError::ExecutionConflict(state) => state_conflict(
            "Job cannot be executed in its current state",
            state,
        ),
        RuntimeError::ConflictAcknowledgementMismatch { expected } => {
            if expected == 0 {
                invalid_input(
                    "accepted_conflict_indexes",
                    "must be empty when the selected candidate has no conflicts",
                )
            } else {
                let last = format_unsigned((expected - 1) as u128, 10, 0);
                let reason = concat_str("must acknowledge indexes 0 through ", last.as_str());
                invalid_input("accepted_conflict_indexes", reason.as_str())
            }
        },
        RuntimeError::ApprovalNotEnabled => invalid_input(
            "approved",
            "job input must enable apply before execution",
        ),
        RuntimeError::StalePlan => ApiError::plain(
            409,
            "stale_plan",
            "Reviewed output plan is no longer current",
        ),
        RuntimeError::Flow(JobFlowError::Sdk(SdkFailure::CandidateOutOfBounds { .. }))
        | RuntimeError::Flow(JobFlowError::IndexOverflow) => invalid_input(
            "candidate_index",
            "must identify an available candidate",
        ),
        RuntimeError::QueueUnavailable => ApiError::plain(
            503,
            "scrape_queue_unavailable",
            "Scrape queue is unavailable",
        ),
        RuntimeError::WorkerFlowUnavailable
        | RuntimeError::ExecutionTaskClosed
        | RuntimeError::ExecutionShuttingDown
        | RuntimeError::CountOverflow
        | RuntimeError::Flow(_) => ApiError::plain(
            500,
            "job_execution_error",
            "Job review or execution failed",
        ),
        RuntimeError::EventHistoryExpired => ApiError::plain(
            409,
            "event_history_expired",
            "Requested job events are no longer available",
        ),
        RuntimeError::InvalidEventCursor => invalid_input(
            "last-event-id",
            "must identify an event issued by this server runtime",
        ),
        RuntimeError::EventSequenceExhausted => ApiError::plain(
            503,
            "event_sequence_exhausted",
            "Job event service requires a restart",
        ),
    }
}

/// The runtime failure for each refused subscription or publish.
pub open spec fn subscribe_error_runtime(error: crate::events::SubscribeError) -> RuntimeError {
    match error {
        crate::events::SubscribeError::Expired => RuntimeError::EventHistoryExpired,
        crate::events::SubscribeError::Invalid => RuntimeError::InvalidEventCursor,
        crate::events::SubscribeError::SequenceExhausted => RuntimeError::EventSequenceExhausted,
    }
}

pub fn runtime_error_from_subscribe(error: crate::events::SubscribeError) -> (e: RuntimeError)
    ensures
        e == subscribe_error_runtime(error),
{
    match error {
        crate::events::SubscribeError::Expired => RuntimeError::EventHistoryExpired,
        crate::events::SubscribeError::Invalid => RuntimeError::InvalidEventCursor,
        crate::events::SubscribeError::SequenceExhausted => RuntimeError::EventSequenceExhausted,
    }
}

/// A job id from a request path: positive ids are read as stored ids, others
/// name no job.
pub fn parse_id(value: i64) -> (result: Result<JobId, ApiError>)
    ensures
        value > 0 ==> result is Ok && result->Ok_0.id() == value,
        value <= 0 ==> result is Err && answer_of(result->Err_0) == job_not_found_answer(value),
{
    if value <= 0 {
        return Err(not_found(value));
    }
    match JobId::from_database(value) {
        Ok(id) => Ok(id),
        Err(error) => Err(map_store_error(&error)),
    }
}

/// A visible ASCII character, as an idempotency key may hold.
pub open spec fn visible_ascii(c: char) -> bool {
    '!' <= c <= '~'
}

/// What the `idempotency-key` header gives: `None` when it is absent, and
/// `Some(None)` when its bytes are not visible ASCII text.
pub open spec fn idempotency_key_result(header: Option<Option<Seq<char>>>) -> Result<
    Seq<char>,
    Answer,
> {
    match header {
        None => Err(invalid_input_answer("idempotency-key"@, "header is required"@)),
        Some(None) => Err(invalid_input_answer("idempotency-key"@, "must be valid visible ASCII"@)),
        Some(Some(v)) => if v.len() == 0 || v.len() > 256 || exists|i: int|
            0 <= i < v.len() && !visible_ascii(#[trigger] v[i]) {
            Err(
                invalid_input_answer(
                    "idempotency-key"@,
                    "must contain 1 to 256 visible ASCII characters"@,
                ),
            )
        } else {
            Ok(v)
        },
    }
}

/// Checks the idempotency key of an execution request.
pub fn idempotency_key(header: Option<Option<&str>>) -> (result: Result<String, ApiError>)
    ensures
        match idempotency_key_result(
            match header {
                None => None,
                Some(None) => Some(None),
                Some(Some(v)) => Some(Some(v@)),
            },
        ) {
            Ok(k) => result is Ok && result->Ok_0@ == k,
            Err(a) => result is Err && answer_of(result->Err_0) == a,
        },
{
    let value = match header {
        None => return Err(invalid_input("idempotency-key", "header is required")),
        Some(None) => return Err(invalid_input("idempotency-key", "must be valid visible ASCII")),
        Some(Some(v)) => v,
    };
    let chars = chars_of(value);
    let mut visible = true;
    let mut i: usize = 0;
    while i < chars.len()
        invariant
            chars@ == value@,
            i <= chars@.len(),
            visible == forall|j: int| 0 <= j < i ==> visible_ascii(#[trigger] chars@[j]),
        decreases chars@.len() - i,
    {
        let c = chars[i];
        if !('!' <= c && c <= '~') {
            visible = false;
        }
        i += 1;
    }
    if chars.len() == 0 || chars.len() > 256 || !visible {
        proof {
            if !visible {
                let j = choose|j: int| 0 <= j < chars@.len() && !visible_ascii(#[trigger] chars@[j]);
                assert(!visible_ascii(value@[j]));
            }
        }
        return Err(
            invalid_input("idempotency-key", "must contain 1 to 256 visible ASCII characters"),
        );
    }
    Ok(value.to_owned())
}

/// The resume cursor of an event stream request: the `last-event-id` header
/// when present, which must be text (`Some(None)` when it is not).
pub fn event_cursor(header: Option<Option<&str>>) -> (result: Result<Option<String>, ApiError>)
    ensures
        match header {
            None => result is Ok && result->Ok_0 is None,
            Some(None) => result is Err && answer_of(result->Err_0) == invalid_input_answer(
                "last-event-id"@,
                "must be a valid event cursor"@,
            ),
            Some(Some(v)) => result is Ok && result->Ok_0 is Some && result->Ok_0->Some_0@
                == v@,
        },
{
    match header {
        None => Ok(None),
        Some(None) => Err(invalid_input("last-event-id", "must be a valid event cursor")),
        Some(Some(v)) => Ok(Some(v.to_owned())),
    }
}

/// What the organization fields of a job request must satisfy before its
/// template is rendered.
pub open spec fn organization_fields_result(
    destination_path: Seq<char>,
    origin_rule_id: Option<i64>,
    path_template: Option<Seq<char>>,
) -> Result<(), Answer> {
    if trim_spec(destination_path).len() == 0 || utf8_len(destination_path) > 4096 || has_control(
        destination_path,
    ) {
        Err(
            invalid_input_answer(
                "organization.destination_path"@,
                "must contain between 1 and 4096 bytes without control characters"@,
            ),
        )
    } else if origin_rule_id is Some && origin_rule_id->Some_0 <= 0 {
        Err(
            invalid_input_answer(
                "organization.origin_rule_id"@,
                "must be a positive integer when provided"@,
            ),
        )
    } else if path_template is Some && (utf8_len(path_template->Some_0) > 4096 || has_control(
        path_template->Some_0,
    )) {
        Err(
            invalid_input_answer(
                "organization.path_template"@,
                "must contain no more than 4096 bytes without control characters"@,
            ),
        )
    } else {
        Ok(())
    }
}

/// Checks the fields of a requested organization; a template that passes is
/// then rendered against a preview before the job is accepted.
pub fn validate_organization(organization: &JobOrganizationDto) -> (result: Result<(), ApiError>)
    ensures
        match organization_fields_result(
            organization.destination_path@,
            organization.origin_rule_id,
            match organization.path_template {
                Some(t) => Some(t@),
                None => None,
            },
        ) {
            Ok(()) => result is Ok,
            Err(a) => result is Err && answer_of(result->Err_0) == a,
        },
{
    let destination = organization.destination_path.as_str();
    if trim(destination).as_str().is_empty() || byte_len(destination) > 4096 || contains_control(
        destination,
    ) {
        return Err(
            invalid_input(
                "organization.destination_path",
                "must contain between 1 and 4096 bytes without control characters",
            ),
        );
    }
    match organization.origin_rule_id {
        Some(id) => if id <= 0 {
            return Err(
                invalid_input(
                    "organization.origin_rule_id",
                    "must be a positive integer when provided",
                ),
            );
        },
        None => {},
    }
    match &organization.path_template {
        Some(template) => {
            if byte_len(template.as_str()) > 4096 || contains_control(template.as_str()) {
                return Err(
                    invalid_input(
                        "organization.path_template",
                        "must contain no more than 4096 bytes without control characters",
                    ),
                );
            }
        },
        None => {},
    }
    Ok(())
}

/// The answer when a job template cannot be checked or does not render.
pub fn template_refused(renders: bool) -> (e: ApiError)
    ensures
        renders ==> answer_of(e) == invalid_input_answer(
            "organization.path_template"@,
            "template validation failed"@,
        ),
        !renders ==> answer_of(e) == invalid_input_answer(
            "organization.path_template"@,
            "must render to a safe relative output path"@,
        ),
{
    if renders {
        invalid_input("organization.path_template", "template validation failed")
    } else {
        invalid_input("organization.path_template", "must render to a safe relative output path")
    }
}

/// The answer for a body that is not a valid job request.
pub fn map_json_rejection() -> (e: ApiError)
    ensures
        answer_of(e) == invalid_input_answer(
            "body"@,
            "must be valid JSON matching the job schema"@,
        ),
{
    invalid_input("body", "must be valid JSON matching the job schema")
}

/// The answer for directories that do not form a valid source and destination.
pub fn invalid_directories() -> (e: ApiError)
    ensures
        answer_of(e) == invalid_input_answer(
            "directories"@,
            "must identify distinct, non-overlapping directories in configured roots"@,
        ),
{
    invalid_input(
        "directories",
        "must identify distinct, non-overlapping directories in configured roots",
    )
}

/// The answer when rule matching is not available on this server.
pub fn invalid_rule_job() -> (e: ApiError)
    ensures
        answer_of(e) == invalid_input_answer(
            "rule"@,
            "matching requires folder rules and configured library roots"@,
        ),
{
    invalid_input("rule", "matching requires folder rules and configured library roots")
}

/// A path job's input path must hold more than white space.
pub fn check_path_job_input(input_path: &str) -> (result: Result<(), ApiError>)
    ensures
        result is Ok <==> trim_spec(input_path@).len() > 0,
        result is Err ==> answer_of(result->Err_0) == invalid_input_answer(
            "input_path"@,
            "must not be empty"@,
        ),
{
    if trim(input_path).as_str().is_empty() {
        return Err(invalid_input("input_path", "must not be empty"));
    }
    Ok(())
}

/// An organization requested through the API never executes automatically:
/// only the ingestion supervisor grants that.
pub fn without_auto_execute(organization: JobOrganizationDto) -> (result: JobOrganizationDto)
    ensures
        !result.auto_execute,
        result.destination_path == organization.destination_path,
        result.placement == organization.placement,
        result.path_template == organization.path_template,
        result.origin_rule_id == organization.origin_rule_id,
{
    JobOrganizationDto { auto_execute: false, ..organization }
}

/// The answer for each failure to queue a job for a selected folder.
pub open spec fn rule_job_error_answer(error: crate::ingestion_runtime::RuleJobError) -> Answer {
    match error {
        crate::ingestion_runtime::RuleJobError::NoMatchingRule => plain_answer(
            422,
            "no_matching_folder_rule"@,
            "No enabled Folder rule matches the selected directory"@,
        ),
        crate::ingestion_runtime::RuleJobError::NoWork => plain_answer(
            422,
            "unrecognized_media"@,
            "The selected directory contains no recognizable media work"@,
        ),
        crate::ingestion_runtime::RuleJobError::MultipleWorks => plain_answer(
            422,
            "multiple_media_works"@,
            "Select a directory containing exactly one media work"@,
        ),
        crate::ingestion_runtime::RuleJobError::AmbiguousMedia => plain_answer(
            422,
            "ambiguous_media_kind"@,
            "Choose the media kind for the selected work"@,
        ),
        crate::ingestion_runtime::RuleJobError::InvalidMediaKindOverride => invalid_input_answer(
            "media_kind"@,
            "must match the fixed Folder rule"@,
        ),
        crate::ingestion_runtime::RuleJobError::Workspace(_)
        | crate::ingestion_runtime::RuleJobError::FilesystemPolicy(_) => invalid_input_answer(
            "directories"@,
            "must identify distinct, non-overlapping directories in configured roots"@,
        ),
        crate::ingestion_runtime::RuleJobError::Discovery(_)
        | crate::ingestion_runtime::RuleJobError::Fingerprint(_) => invalid_input_answer(
            "source"@,
            "could not be recognized as a single media work"@,
        ),
        _ => plain_answer(500, "rule_job_error"@, "The selected folder could not be queued"@),
    }
}

/// Answers a failure to queue a job for a selected folder.
pub fn map_rule_job_error(error: &crate::ingestion_runtime::RuleJobError) -> (e: ApiError)
    ensures
        answer_of(e) == rule_job_error_answer(*error),
{
    match error {
        RuleJobError::NoMatchingRule => ApiError::plain(
            422,
            "no_matching_folder_rule",
            "No enabled Folder rule matches the selected directory",
        ),
        RuleJobError::NoWork => ApiError::plain(
            422,
            "unrecognized_media",
            "The selected directory contains no recognizable media work",
        ),
        RuleJobError::MultipleWorks => ApiError::plain(
            422,
            "multiple_media_works",
            "Select a directory containing exactly one media work",
        ),
        RuleJobError::AmbiguousMedia => ApiError::plain(
            422,
            "ambiguous_media_kind",
            "Choose the media kind for the selected work",
        ),
        RuleJobError::InvalidMediaKindOverride => invalid_input(
            "media_kind",
            "must match the fixed Folder rule",
        ),
        RuleJobError::Workspace(_) | RuleJobError::FilesystemPolicy(_) => invalid_directories(),
        RuleJobError::Discovery(_) | RuleJobError::Fingerprint(_) => invalid_input(
            "source",
            "could not be recognized as a single media work",
        ),
        RuleJobError::Store(_) | RuleJobError::Join(_) | RuleJobError::Runtime(_) => ApiError::plain(
            500,
            "rule_job_error",
            "The selected folder could not be queued",
        ),
    }
}

} // verus!
