//! Failures of the workspace (library roots, browsing, settings) and how the
//! API answers them.
use vstd::prelude::*;

use crate::api_error::{ApiError, Answer, answer_of, invalid_input, invalid_input_answer, plain_answer};

verus! {

/// Why a workspace operation failed.
#[derive(Debug, Clone, PartialEq, Eq)]
pub enum WorkspaceStateError {
    InvalidInput { field: String, reason: String },
    RootNotFound,
    PathNotFound,
    InvalidPath,
    NotDirectory,
    ProviderNotFound,
    ProbeConfiguration,
    InvalidRoot,
    Inspect,
    SettingsTask,
    SettingsPersistence(String),
}

/// The answer for each workspace failure.
pub open spec fn state_error_answer(error: WorkspaceStateError) -> Answer {
    match error {
        WorkspaceStateError::InvalidInput { field, reason } => invalid_input_answer(field@, reason@),
        WorkspaceStateError::RootNotFound => plain_answer(
            404,
            "library_root_not_found"@,
            "Configured library root was not found"@,
        ),
        WorkspaceStateError::PathNotFound => plain_answer(
            404,
            "library_path_not_found"@,
            "Library path was not found"@,
        ),
        WorkspaceStateError::InvalidPath => plain_answer(
            400,
            "invalid_library_path"@,
            "Library path must be relative to a configured root"@,
        ),
        WorkspaceStateError::NotDirectory => plain_answer(
            400,
            "library_path_not_directory"@,
            "Library path is not a directory"@,
        ),
        WorkspaceStateError::ProviderNotFound => plain_answer(
            404,
            "provider_not_found"@,
            "Provider was not found"@,
        ),
        WorkspaceStateError::ProbeConfiguration => plain_answer(
            422,
            "provider_configuration_error"@,
            "Provider connectivity test could not be configured"@,
        ),
        _ => plain_answer(500, "workspace_error"@, "Workspace operation failed"@),
    }
}

pub fn map_state_error(error: &WorkspaceStateError) -> (e: ApiError)
    ensures
        answer_of(e) == state_error_answer(*error),
{
    match error {
        WorkspaceStateError::InvalidInput { field, reason } => invalid_input(
            field.as_str(),
            reason.as_str(),
        ),
        WorkspaceStateError::RootNotFound => ApiError::plain(
            404,
            "library_root_not_found",
            "Configured library root was not found",
        ),
        WorkspaceStateError::PathNotFound => ApiError::plain(
            404,
            "library_path_not_found",
            "Library path was not found",
        ),
        WorkspaceStateError::InvalidPath => ApiError::plain(
            400,
            "invalid_library_path",
            "Library path must be relative to a configured root",
        ),
        WorkspaceStateError::NotDirectory => ApiError::plain(
            400,
            "library_path_not_directory",
            "Library path is not a directory",
        ),
        WorkspaceStateError::ProviderNotFound => ApiError::plain(
            404,
            "provider_not_found",
            "Provider was not found",
        ),
        WorkspaceStateError::ProbeConfiguration => ApiError::plain(
            422,
            "provider_configuration_error",
            "Provider connectivity test could not be configured",
        ),
        WorkspaceStateError::InvalidRoot
        | WorkspaceStateError::Inspect
        | WorkspaceStateError::SettingsTask
        | WorkspaceStateError::SettingsPersistence(_) => ApiError::plain(
            500,
            "workspace_error",
            "Workspace operation failed",
        ),
    }
}

/// How a path template was refused.
#[derive(Debug, Clone, Copy, PartialEq, Eq, Structural)]
pub enum TemplateErrorKind {
    InvalidSyntax,
    UnsupportedVariable,
    UnsupportedFilter,
    MissingVariable,
    UnsafePath,
    Locale,
}

pub open spec fn template_reason(kind: TemplateErrorKind) -> Seq<char> {
    match kind {
        TemplateErrorKind::InvalidSyntax => "template syntax is invalid"@,
        TemplateErrorKind::UnsupportedVariable => "template contains an unsupported variable"@,
        TemplateErrorKind::UnsupportedFilter => "template contains an unsupported filter"@,
        TemplateErrorKind::MissingVariable => "sample is missing a required template variable"@,
        TemplateErrorKind::UnsafePath => "rendered output path is unsafe"@,
        TemplateErrorKind::Locale => "template locale policy is invalid"@,
    }
}

/// The answer for a template preview that failed.
pub fn map_template_error(kind: TemplateErrorKind) -> (e: ApiError)
    ensures
        answer_of(e) == (
            422u16,
            "invalid_template"@,
            "Template preview is invalid"@,
            Some(seq![("template"@, template_reason(kind))]),
        ),
{
    let reason = match kind {
        TemplateErrorKind::InvalidSyntax => "template syntax is invalid",
        TemplateErrorKind::UnsupportedVariable => "template contains an unsupported variable",
        TemplateErrorKind::UnsupportedFilter => "template contains an unsupported filter",
        TemplateErrorKind::MissingVariable => "sample is missing a required template variable",
        TemplateErrorKind::UnsafePath => "rendered output path is unsafe",
        TemplateErrorKind::Locale => "template locale policy is invalid",
    };
    ApiError::detailed(422, "invalid_template", "Template preview is invalid", "template", reason)
}

} // verus!
