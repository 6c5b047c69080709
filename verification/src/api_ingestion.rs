//! How the ingestion endpoints answer failures of the ingestion runtime.
use vstd::prelude::*;

use crate::api_error::{
    ApiError, Answer, answer_of, detail_answer, id_detail, invalid_input, invalid_input_answer,
    plain_answer,
};
use crate::ingestion_model::IngestionModelError;
use crate::ingestion_runtime::IngestionRuntimeError;
use crate::numbers::{digits_spec, format_unsigned, signed_decimal};
use crate::store::StoreError;
use crate::text::concat_str;

verus! {

broadcast use vstd::string::group_string_axioms;

/// The field a model failure is reported under.
pub open spec fn model_error_field(error: IngestionModelError) -> Seq<char> {
    match error {
        IngestionModelError::InvalidRequiredText { field, .. } => field@,
        IngestionModelError::InvalidOptionalText { field, .. } => field@,
        _ => "body"@,
    }
}

pub open spec fn model_error_answer(error: IngestionModelError) -> Answer {
    invalid_input_answer(model_error_field(error), "must contain a supported bounded value"@)
}

pub fn map_model_error(error: &IngestionModelError) -> (e: ApiError)
    ensures
        answer_of(e) == model_error_answer(*error),
{
    let field: &str = match error {
        IngestionModelError::InvalidRequiredText { field, .. } => field,
        IngestionModelError::InvalidOptionalText { field, .. } => field,
        _ => "body",
    };
    invalid_input(field, "must contain a supported bounded value")
}

/// The reason given when the rule limit is reached.
pub open spec fn rule_limit_reason(limit: i64) -> Seq<char> {
    "delete an existing rule before adding another (limit: "@ + signed_decimal(limit as int) + ")"@
}

/// The answer for each ingestion runtime failure.
pub open spec fn ingestion_error_answer(error: IngestionRuntimeError) -> Answer {
    match error {
        IngestionRuntimeError::Workspace(_) | IngestionRuntimeError::FilesystemPolicy(_) => invalid_input_answer(
            "directories"@,
            "must identify distinct, non-overlapping directories in configured roots"@,
        ),
        IngestionRuntimeError::Model(e) => model_error_answer(e),
        IngestionRuntimeError::InvalidReviewMediaKind => invalid_input_answer(
            "media_kind"@,
            "must be one of the offered review choices"@,
        ),
        IngestionRuntimeError::ReviewRuleMissing => plain_answer(
            409,
            "review_rule_missing"@,
            "The folder rule for this review no longer exists"@,
        ),
        IngestionRuntimeError::Jobs => plain_answer(
            409,
            "review_job_error"@,
            "The reviewed item could not be queued; rescan the folder and retry"@,
        ),
        IngestionRuntimeError::Store(StoreError::IngestionRuleLimit { limit }) => detail_answer(
            422,
            "ingestion_rule_limit"@,
            "Folder rule limit reached"@,
            "rules"@,
            rule_limit_reason(limit),
        ),
        IngestionRuntimeError::Store(_) => plain_answer(
            500,
            "ingestion_store_error"@,
            "Persistent ingestion rule operation failed"@,
        ),
    }
}

/// Answers a failed ingestion runtime operation.
pub fn map_runtime_error(error: &IngestionRuntimeError) -> (e: ApiError)
    ensures
        answer_of(e) == ingestion_error_answer(*error),
{
    match error {
        IngestionRuntimeError::Workspace(_) | IngestionRuntimeError::FilesystemPolicy(_) => invalid_input(
            "directories",
            "must identify distinct, non-overlapping directories in configured roots",
        ),
        IngestionRuntimeError::Model(error) => map_model_error(error),
        IngestionRuntimeError::InvalidReviewMediaKind => invalid_input(
            "media_kind",
            "must be one of the offered review choices",
        ),
        IngestionRuntimeError::ReviewRuleMissing => ApiError::plain(
            409,
            "review_rule_missing",
            "The folder rule for this review no longer exists",
        ),
        IngestionRuntimeError::Jobs => ApiError::plain(
            409,
            "review_job_error",
            "The reviewed item could not be queued; rescan the folder and retry",
        ),
        IngestionRuntimeError::Store(StoreError::IngestionRuleLimit { limit }) => {
            let head = concat_str(
                "delete an existing rule before adding another (limit: ",
                crate::numbers::format_signed(*limit).as_str(),
            );
            let reason = concat_str(head.as_str(), ")");
            ApiError::detailed(
                422,
                "ingestion_rule_limit",
                "Folder rule limit reached",
                "rules",
                reason.as_str(),
            )
        },
        IngestionRuntimeError::Store(_) => ApiError::plain(
            500,
            "ingestion_store_error",
            "Persistent ingestion rule operation failed",
        ),
    }
}

/// The answer for a rule template that does not parse or render.
pub fn invalid_template(reason: &str) -> (e: ApiError)
    ensures
        answer_of(e) == detail_answer(
            422,
            "invalid_template"@,
            "Ingestion rule template is invalid"@,
            "path_template_override"@,
            reason@,
        ),
{
    ApiError::detailed(
        422,
        "invalid_template",
        "Ingestion rule template is invalid",
        "path_template_override",
        reason,
    )
}

/// The answer for a review item that does not exist.
pub fn source_not_found(id: i64) -> (e: ApiError)
    ensures
        answer_of(e) == detail_answer(
            404,
            "ingestion_source_not_found"@,
            "Folder review item was not found"@,
            "source_id"@,
            signed_decimal(id as int),
        ),
{
    id_detail(404, "ingestion_source_not_found", "Folder review item was not found", "source_id", id)
}

/// The answer for a rule that does not exist.
pub fn not_found(id: i64) -> (e: ApiError)
    ensures
        answer_of(e) == detail_answer(
            404,
            "ingestion_rule_not_found"@,
            "Ingestion rule not found"@,
            "rule_id"@,
            signed_decimal(id as int),
        ),
{
    id_detail(404, "ingestion_rule_not_found", "Ingestion rule not found", "rule_id", id)
}

} // verus!
