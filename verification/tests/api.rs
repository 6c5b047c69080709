use fixer::api_runs::{check_retry_state, creation_status, retry_of};
use fixer::api_error::invalid_input;
use fixer::api_ingestion::{map_runtime_error as map_ingestion_error, not_found as rule_not_found};
use fixer::api_jobs::{
    JobFlowError, RuntimeError, SdkFailure, event_cursor, idempotency_key, map_runtime_error,
    map_store_error, parse_id,
};
use fixer::api_runs::{RunStatus, item_name, resolve_new_input, run_status, validate_input_path, NewInput};
use fixer::ingestion_runtime::IngestionRuntimeError;
use fixer::job_model::{JobMediaKind, JobState};
use fixer::store::StoreError;
use fixer::workspace_errors::{WorkspaceStateError, map_state_error};

#[test]
fn invalid_input_carries_one_detail() {
    let error = invalid_input("title", "must not be empty");
    assert_eq!(error.status, 422);
    assert_eq!(error.code, "invalid_input");
    assert_eq!(
        error.details,
        Some(vec![("title".to_owned(), "must not be empty".to_owned())])
    );
}

#[test]
fn runtime_errors_map_to_answers() {
    let conflict = map_runtime_error(RuntimeError::CancellationConflict(JobState::Writing));
    assert_eq!(conflict.status, 409);
    assert_eq!(conflict.details, Some(vec![("state".to_owned(), "writing".to_owned())]));
    let ack = map_runtime_error(RuntimeError::ConflictAcknowledgementMismatch { expected: 3 });
    assert_eq!(
        ack.details,
        Some(vec![(
            "accepted_conflict_indexes".to_owned(),
            "must acknowledge indexes 0 through 2".to_owned()
        )])
    );
    let candidate = map_runtime_error(RuntimeError::Flow(JobFlowError::Sdk(
        SdkFailure::CandidateOutOfBounds { index: 4, length: 2 },
    )));
    assert_eq!(candidate.status, 422);
    let other = map_runtime_error(RuntimeError::Flow(JobFlowError::MissingBookIsbn));
    assert_eq!(other.status, 500);
    let missing = map_store_error(&StoreError::NotFound { id: 12 });
    assert_eq!(missing.code, "job_not_found");
    assert_eq!(missing.details, Some(vec![("job_id".to_owned(), "12".to_owned())]));
    assert_eq!(parse_id(-3).unwrap_err().status, 404);
    assert_eq!(parse_id(3).unwrap().get(), 3);
}

#[test]
fn request_headers_are_checked() {
    assert_eq!(idempotency_key(Some(Some("abc-123"))).unwrap(), "abc-123");
    assert_eq!(idempotency_key(None).unwrap_err().status, 422);
    assert!(idempotency_key(Some(Some("has space"))).is_err());
    assert!(idempotency_key(Some(Some(&"k".repeat(257)))).is_err());
    assert_eq!(event_cursor(None).unwrap(), None);
    assert_eq!(event_cursor(Some(Some("run:1"))).unwrap(), Some("run:1".to_owned()));
    assert!(event_cursor(Some(None)).is_err());
}

#[test]
fn runs_report_status_and_name() {
    assert_eq!(run_status(JobState::Planning), RunStatus::Running);
    assert_eq!(run_status(JobState::AwaitingConfirmation), RunStatus::Failed);
    assert_eq!(run_status(JobState::Completed), RunStatus::Succeeded);
    assert_eq!(item_name("/media/Movies/Alien"), "Alien");
    assert_eq!(item_name("/"), "Media item");
    assert!(validate_input_path("/media/a").is_ok());
    assert!(validate_input_path("  ").is_err());
    assert_eq!(
        resolve_new_input(Some(JobMediaKind::Movie), false, Some("/m")).unwrap(),
        (JobMediaKind::Movie, NewInput::Path("/m".to_owned()))
    );
    assert!(resolve_new_input(None, true, None).is_err());
    assert!(resolve_new_input(Some(JobMediaKind::Movie), true, Some("/m")).is_err());
}

#[test]
fn ingestion_and_workspace_errors_map_to_answers() {
    let limit = map_ingestion_error(&IngestionRuntimeError::Store(StoreError::IngestionRuleLimit {
        limit: 100,
    }));
    assert_eq!(limit.code, "ingestion_rule_limit");
    assert_eq!(
        limit.details,
        Some(vec![(
            "rules".to_owned(),
            "delete an existing rule before adding another (limit: 100)".to_owned()
        )])
    );
    assert_eq!(rule_not_found(7).code, "ingestion_rule_not_found");
    assert_eq!(map_state_error(&WorkspaceStateError::InvalidPath).status, 400);
    assert_eq!(map_state_error(&WorkspaceStateError::Inspect).code, "workspace_error");
}

#[test]
fn retries_follow_the_run_state() {
    assert!(check_retry_state(JobState::Failed).is_ok());
    assert_eq!(check_retry_state(JobState::Writing).unwrap_err().code, "run_state_conflict");
    assert_eq!(retry_of(5, 2), Some(5));
    assert_eq!(retry_of(5, 0), None);
    assert_eq!(creation_status(true), 202);
    assert_eq!(creation_status(false), 200);
}
