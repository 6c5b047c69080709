//! Rules the job workers apply around scanning and executing: the title a
//! path is searched under, and how a failed execution is summarized.
use vstd::prelude::*;

use crate::api_jobs::JobFlowError;
use crate::job_model::{AutoReviewReason, ExecutionFailureSummary, JobState};
use crate::numbers::{digits_spec, format_unsigned};
use crate::paths::{Component, ComponentView, render, render_spec, starts_with, starts_with_spec};
use crate::output::{ExecutionError, ExecutionFailure, OperationReport, OperationStatus};
use crate::paths::{components, components_spec, file_name, file_name_spec, file_stem, stem_spec};
use crate::text::{trim, trim_spec};

verus! {

broadcast use vstd::string::group_string_axioms;

/// The title a path is searched under: a directory's name, or a file's stem,
/// trimmed; `None` when that is empty or the path has no name.
pub open spec fn query_title_spec(path: Seq<char>, is_dir: bool) -> Option<Seq<char>> {
    match file_name_spec(components_spec(path)) {
        None => None,
        Some(name) => {
            let value = if is_dir {
                name
            } else {
                stem_spec(name)
            };
            if trim_spec(value).len() > 0 {
                Some(trim_spec(value))
            } else {
                None
            }
        },
    }
}

/// The search title for an input path, given whether it is a directory.
pub fn path_query_title(path: &str, is_dir: bool) -> (title: Result<String, JobFlowError>)
    ensures
        match query_title_spec(path@, is_dir) {
            Some(t) => title is Ok && title->Ok_0@ == t,
            None => title is Err && title->Err_0 is InvalidInput
                && title->Err_0->InvalidInput_0@ == "input path has no UTF-8 title"@,
        },
{
    let parts = components(path);
    let name = match file_name(&parts) {
        Some(n) => n,
        None => return Err(JobFlowError::InvalidInput("input path has no UTF-8 title".to_owned())),
    };
    let value = if is_dir {
        name
    } else {
        file_stem(name.as_str())
    };
    let trimmed = trim(value.as_str());
    if trimmed.as_str().is_empty() {
        return Err(JobFlowError::InvalidInput("input path has no UTF-8 title".to_owned()));
    }
    Ok(trimmed)
}

/// A count as the persistent summaries store it.
pub fn count(value: usize) -> (counted: Result<u64, JobFlowError>)
    ensures
        value <= u64::MAX ==> counted == Ok::<u64, JobFlowError>(value as u64),
        value > u64::MAX ==> counted == Err::<u64, JobFlowError>(JobFlowError::CountOverflow),
{
    if value as u128 > u64::MAX as u128 {
        return Err(JobFlowError::CountOverflow);
    }
    Ok(value as u64)
}

/// The stable code and message recorded for each execution failure.
pub open spec fn failure_code(error: ExecutionError) -> (Seq<char>, Seq<char>) {
    match error {
        ExecutionError::UnsafeTarget { .. } => (
            "unsafe_target"@,
            "An output target is outside the permitted destination"@,
        ),
        ExecutionError::TargetExists { .. } => (
            "target_exists"@,
            "An output target already exists; choose another destination or resolve the collision"@,
        ),
        ExecutionError::StalePlan { .. } => (
            "stale_plan"@,
            "Files changed after planning; rebuild the output plan before retrying"@,
        ),
        ExecutionError::SourceUnavailable { .. } => (
            "source_unavailable"@,
            "A source file is no longer available; restore it and retry"@,
        ),
        ExecutionError::RelativeSymlinkUnavailable { .. } => (
            "relative_symlink_unavailable"@,
            "A relative link cannot be created for this source and destination"@,
        ),
        ExecutionError::ReflinkUnsupported { .. } => (
            "reflink_unsupported"@,
            "This filesystem does not support copy-on-write clones for the selected files"@,
        ),
        ExecutionError::InvalidPlan(_) => (
            "invalid_plan"@,
            "The output plan is invalid; rebuild it before retrying"@,
        ),
        ExecutionError::Io { .. } => (
            "filesystem_error"@,
            "A filesystem operation failed; check permissions and available space"@,
        ),
    }
}

/// The index of the first failed operation in a report.
pub open spec fn first_failed(operations: Seq<OperationReport>) -> Option<usize>
    decreases operations.len(),
{
    if operations.len() == 0 {
        None
    } else if operations[0].status == OperationStatus::Failed {
        Some(operations[0].index)
    } else {
        first_failed(operations.drop_first())
    }
}

fn failure_text(error: &ExecutionError) -> (texts: (&'static str, &'static str))
    ensures
        (texts.0@, texts.1@) == failure_code(*error),
{
    match error {
        ExecutionError::UnsafeTarget { .. } => (
            "unsafe_target",
            "An output target is outside the permitted destination",
        ),
        ExecutionError::TargetExists { .. } => (
            "target_exists",
            "An output target already exists; choose another destination or resolve the collision",
        ),
        ExecutionError::StalePlan { .. } => (
            "stale_plan",
            "Files changed after planning; rebuild the output plan before retrying",
        ),
        ExecutionError::SourceUnavailable { .. } => (
            "source_unavailable",
            "A source file is no longer available; restore it and retry",
        ),
        ExecutionError::RelativeSymlinkUnavailable { .. } => (
            "relative_symlink_unavailable",
            "A relative link cannot be created for this source and destination",
        ),
        ExecutionError::ReflinkUnsupported { .. } => (
            "reflink_unsupported",
            "This filesystem does not support copy-on-write clones for the selected files",
        ),
        ExecutionError::InvalidPlan(_) => (
            "invalid_plan",
            "The output plan is invalid; rebuild it before retrying",
        ),
        ExecutionError::Io { .. } => (
            "filesystem_error",
            "A filesystem operation failed; check permissions and available space",
        ),
    }
}

/// The summary kept of a failed execution: the index of the first failed
/// operation, and a stable code and message for the error.
pub fn execution_failure_summary(failure: &ExecutionFailure) -> (summary: ExecutionFailureSummary)
    ensures
        summary.operation_index == match first_failed(failure.report_view().operations_view()) {
            Some(i) => Some(i as u64),
            None => None,
        },
        (summary.code@, summary.message@) == failure_code(failure.error_view()),
{
    let operations = failure.report().operations();
    let ghost all = failure.report_view().operations_view();
    let mut index: Option<u64> = None;
    let mut i: usize = 0;
    assert(all.skip(0) =~= all);
    while i < operations.len() && index.is_none()
        invariant
            operations@ == all,
            i <= all.len(),
            index is None ==> first_failed(all) == first_failed(all.skip(i as int)),
            index is Some ==> first_failed(all) is Some && index->Some_0 == first_failed(
                all,
            )->Some_0 as u64,
        decreases all.len() - i,
    {
        assert(all.skip(i as int)[0] == all[i as int]);
        assert(all.skip(i as int).drop_first() =~= all.skip(i + 1));
        if operations[i].status == OperationStatus::Failed {
            index = Some(operations[i].index as u64);
        }
        i += 1;
    }
    if index.is_none() {
        assert(all.skip(i as int) =~= Seq::<OperationReport>::empty());
    }
    let (code, message) = failure_text(failure.error());
    ExecutionFailureSummary::new(index, code.to_owned(), message.to_owned())
}

/// The message for a scan that found the wrong number of things.
pub open spec fn ambiguous_message(kind: Seq<char>, count: nat) -> Seq<char> {
    "expected one "@ + kind + ", found "@ + digits_spec(count, 10)
}

pub fn ambiguous(kind: &str, count: usize) -> (error: JobFlowError)
    ensures
        error is InvalidInput && error->InvalidInput_0@ == ambiguous_message(kind@, count as nat),
{
    let head = crate::text::concat_str(crate::text::concat_str("expected one ", kind).as_str(), ", found ");
    let digits = format_unsigned(count as u128, 10, 0);
    JobFlowError::InvalidInput(crate::text::concat_str(head.as_str(), digits.as_str()))
}

/// The scanned root an input belongs to. A directory input must have yielded
/// exactly one document; a file input belongs to the deepest root containing
/// it, which must be unique.
pub open spec fn rooted_choice(roots: Seq<Seq<ComponentView>>, input: Seq<ComponentView>, is_dir: bool) -> Result<int, Seq<char>> {
    if is_dir {
        if roots.len() == 1 {
            Ok(0)
        } else {
            Err(ambiguous_message("media documents"@, roots.len()))
        }
    } else if !(exists|i: int| 0 <= i < roots.len() && starts_with_spec(input, #[trigger] roots[i])) {
        Err("input path does not belong to a scanned media root"@)
    } else {
        let k = choose|k: int| 0 <= k < roots.len() && starts_with_spec(input, #[trigger] roots[k])
            && forall|j: int| 0 <= j < roots.len() && starts_with_spec(input, #[trigger] roots[j]) ==> roots[j].len() <= roots[k].len();
        if exists|j: int| 0 <= j < roots.len() && j != k && starts_with_spec(input, #[trigger] roots[j]) && roots[j].len() == roots[k].len() {
            Err("input path belongs to multiple scanned media roots"@)
        } else {
            Ok(k)
        }
    }
}

/// Picks the scanned root of an input, as positions in the scanner's output;
/// the scanner must give as many documents as roots.
pub fn select_rooted(document_count: usize, roots: &Vec<Vec<Component>>, input: &Vec<Component>, is_dir: bool) -> (result: Result<usize, JobFlowError>)
    ensures
        document_count != roots@.len() ==> result is Err && result->Err_0 is InvalidInput
            && result->Err_0->InvalidInput_0@ == "media scan returned mismatched documents and roots"@,
        document_count == roots@.len() ==> match rooted_choice(crate::fs_policy::paths_view(roots@), input.deep_view(), is_dir) {
            Ok(k) => result is Ok && result->Ok_0 == k,
            Err(m) => result is Err && result->Err_0 is InvalidInput && result->Err_0->InvalidInput_0@ == m,
        },
{
    if document_count != roots.len() {
        return Err(JobFlowError::InvalidInput("media scan returned mismatched documents and roots".to_owned()));
    }
    let ghost all = crate::fs_policy::paths_view(roots@);
    if is_dir {
        if roots.len() != 1 {
            return Err(ambiguous("media documents", roots.len()));
        }
        return Ok(0);
    }
    let mut best: Option<usize> = None;
    let mut depth: usize = 0;
    let mut ties: bool = false;
    let mut i: usize = 0;
    while i < roots.len()
        invariant
            all == crate::fs_policy::paths_view(roots@),
            i <= all.len(),
            match best {
                None => forall|j: int| 0 <= j < i ==> !starts_with_spec(input.deep_view(), #[trigger] all[j]),
                Some(k) => {
                    &&& k < i
                    &&& starts_with_spec(input.deep_view(), all[k as int])
                    &&& depth == all[k as int].len()
                    &&& forall|j: int| 0 <= j < i && starts_with_spec(input.deep_view(), #[trigger] all[j]) ==> all[j].len() <= depth
                    &&& forall|j: int| 0 <= j < k && starts_with_spec(input.deep_view(), #[trigger] all[j]) ==> all[j].len() < depth
                    &&& ties == exists|j: int| k < j < i && starts_with_spec(input.deep_view(), #[trigger] all[j]) && all[j].len() == depth
                },
            },
        decreases all.len() - i,
    {
        assert(all[i as int] == roots@[i as int].deep_view());
        if starts_with(input, &roots[i]) {
            let d = roots[i].len();
            match best {
                None => {
                    best = Some(i);
                    depth = d;
                    ties = false;
                },
                Some(_) => {
                    if d > depth {
                        best = Some(i);
                        depth = d;
                        ties = false;
                    } else if d == depth {
                        ties = true;
                    }
                },
            }
        }
        i += 1;
    }
    match best {
        None => Err(JobFlowError::InvalidInput("input path does not belong to a scanned media root".to_owned())),
        Some(k) => {
            proof {
                let input_v = input.deep_view();
                assert(starts_with_spec(input_v, all[k as int]));
                let c = choose|c: int| 0 <= c < all.len() && starts_with_spec(input_v, #[trigger] all[c])
                    && forall|j: int| 0 <= j < all.len() && starts_with_spec(input_v, #[trigger] all[j]) ==> all[j].len() <= all[c].len();
                assert(all[c].len() == depth);
                if c != k {
                    assert(exists|j: int| 0 <= j < all.len() && j != c && starts_with_spec(input_v, #[trigger] all[j]) && all[j].len() == all[c].len()) by {
                        assert(starts_with_spec(input_v, all[k as int]));
                    }
                }
            }
            if ties {
                return Err(JobFlowError::InvalidInput("input path belongs to multiple scanned media roots".to_owned()));
            }
            Ok(k)
        },
    }
}

/// The directory a scan starts from: the input itself when it is a
/// directory, else its parent, which must not be empty.
pub open spec fn scan_root_spec(path: Seq<ComponentView>, is_dir: bool) -> Option<Seq<char>> {
    if is_dir {
        Some(render_spec(path))
    } else if path.len() == 0 || path.last() is RootDir {
        None
    } else if render_spec(path.drop_last()).len() == 0 {
        None
    } else {
        Some(render_spec(path.drop_last()))
    }
}

pub fn scan_root(path: &Vec<Component>, is_dir: bool) -> (root: Result<String, JobFlowError>)
    ensures
        match scan_root_spec(path.deep_view(), is_dir) {
            Some(r) => root is Ok && root->Ok_0@ == r,
            None => root is Err && root->Err_0 is InvalidInput
                && root->Err_0->InvalidInput_0@ == "input path has no containing directory"@,
        },
{
    if is_dir {
        return Ok(render(path));
    }
    let n = path.len();
    if n == 0 {
        return Err(JobFlowError::InvalidInput("input path has no containing directory".to_owned()));
    }
    match &path[n - 1] {
        Component::RootDir => {
            assert(path.deep_view().last() is RootDir);
            return Err(JobFlowError::InvalidInput("input path has no containing directory".to_owned()));
        },
        _ => {},
    }
    let mut parent = crate::fs_policy::clone_path(path);
    let _ = parent.pop();
    assert(parent.deep_view() =~= path.deep_view().drop_last());
    let text = render(&parent);
    if text.as_str().is_empty() {
        return Err(JobFlowError::InvalidInput("input path has no containing directory".to_owned()));
    }
    Ok(text)
}

/// States in which the job runtime holds no live work.
pub open spec fn runtime_terminal(state: JobState) -> bool {
    state == JobState::Completed || state == JobState::Failed || state == JobState::Cancelled
        || state == JobState::Interrupted
}

pub fn is_terminal(state: JobState) -> (terminal: bool)
    ensures
        terminal == runtime_terminal(state),
{
    match state {
        JobState::Completed | JobState::Failed | JobState::Cancelled | JobState::Interrupted => true,
        _ => false,
    }
}

/// Whether a reviewed job executes on its own or waits for a person.
#[derive(Debug, Clone, Copy, PartialEq, Eq, Structural)]
pub enum AutoDecision {
    Execute { candidate_index: u64 },
    NeedsReview { reason: AutoReviewReason },
}

/// The final automatic decision once a plan exists: without a filesystem
/// policy, or with a plan the policy refuses, the job needs review; a fresh
/// scrape whose targets already exist needs review too; otherwise the earlier
/// decision stands.
pub fn auto_plan_decision(
    has_policy: bool,
    plan_allowed: bool,
    is_correction: bool,
    targets_collide: bool,
    approved: AutoDecision,
) -> (decision: AutoDecision)
    ensures
        !has_policy || !plan_allowed ==> decision == (AutoDecision::NeedsReview { reason: AutoReviewReason::InvalidPlan }),
        has_policy && plan_allowed && !is_correction && targets_collide ==> decision == (AutoDecision::NeedsReview { reason: AutoReviewReason::DestinationCollision }),
        has_policy && plan_allowed && (is_correction || !targets_collide) ==> decision == approved,
{
    if !has_policy || !plan_allowed {
        return AutoDecision::NeedsReview { reason: AutoReviewReason::InvalidPlan };
    }
    if !is_correction && targets_collide {
        return AutoDecision::NeedsReview { reason: AutoReviewReason::DestinationCollision };
    }
    approved
}

} // verus!
