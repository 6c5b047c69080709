//! Output-plan safety rules: target validation, path normalization, relative
//! symlink paths, execution policies and reports.
use vstd::prelude::*;

use crate::paths::{
    Component, ComponentView, components, components_spec, component_equal, is_absolute_spec,
};
use crate::text::{chars_of, str_equal};

verus! {

broadcast use vstd::string::group_string_axioms;

#[derive(Debug, Clone, Copy, PartialEq, Eq, Structural)]
pub enum OverwritePolicy {
    NoOverwrite,
    Replace,
}

#[derive(Debug, Clone, Copy, PartialEq, Eq, Structural)]
pub enum ReflinkPolicy {
    Required,
    FallbackToCopy,
}

#[derive(Debug, Clone, Copy, PartialEq, Eq, Structural)]
pub enum PlacementMode {
    InPlace,
    RelativeSymlink,
    AbsoluteSymlink,
    Hardlink,
    Copy,
    Reflink,
}

/// How a prepared plan is executed.
#[derive(Debug, Clone, Copy, PartialEq, Eq, Structural)]
pub struct ExecutionPolicy {
    pub dry_run: bool,
    pub overwrite: OverwritePolicy,
    pub reflink: ReflinkPolicy,
}

impl ExecutionPolicy {
    /// The default policy: execute, never overwrite, require reflinks.
    pub fn new() -> (policy: Self)
        ensures
            !policy.dry_run,
            policy.overwrite == OverwritePolicy::NoOverwrite,
            policy.reflink == ReflinkPolicy::Required,
    {
        ExecutionPolicy {
            dry_run: false,
            overwrite: OverwritePolicy::NoOverwrite,
            reflink: ReflinkPolicy::Required,
        }
    }

    /// A preview that touches nothing.
    pub fn dry_run() -> (policy: Self)
        ensures
            policy.dry_run,
            policy.overwrite == OverwritePolicy::NoOverwrite,
            policy.reflink == ReflinkPolicy::Required,
    {
        ExecutionPolicy {
            dry_run: true,
            overwrite: OverwritePolicy::NoOverwrite,
            reflink: ReflinkPolicy::Required,
        }
    }

    pub fn with_overwrite(self, overwrite: OverwritePolicy) -> (policy: Self)
        ensures
            policy == (ExecutionPolicy { overwrite, ..self }),
    {
        ExecutionPolicy { overwrite, ..self }
    }

    pub fn with_reflink(self, reflink: ReflinkPolicy) -> (policy: Self)
        ensures
            policy == (ExecutionPolicy { reflink, ..self }),
    {
        ExecutionPolicy { reflink, ..self }
    }
}

#[derive(Debug, Clone, Copy, PartialEq, Eq, Structural)]
pub enum OperationStatus {
    DryRun,
    Completed,
    Reflinked,
    CopiedFallback,
    Failed,
}

/// What happened to one operation of a plan.
#[derive(Debug, Clone, PartialEq, Eq)]
pub struct OperationReport {
    pub index: usize,
    pub target: String,
    pub status: OperationStatus,
}

/// The operations attempted so far, in plan order.
#[derive(Debug, Clone, PartialEq, Eq)]
pub struct ExecutionReport {
    operations: Vec<OperationReport>,
}

impl ExecutionReport {
    pub fn new() -> (report: Self)
        ensures
            report.operations_view().len() == 0,
    {
        ExecutionReport { operations: Vec::new() }
    }

    pub closed spec fn operations_view(&self) -> Seq<OperationReport> {
        self.operations@
    }

    pub fn operations(&self) -> (operations: &[OperationReport])
        ensures
            operations@ == self.operations_view(),
    {
        self.operations.as_slice()
    }

    /// Appends the outcome of the next operation.
    pub fn record(&mut self, index: usize, target: String, status: OperationStatus)
        ensures
            final(self).operations_view() == old(self).operations_view().push(
                OperationReport { index, target, status },
            ),
    {
        self.operations.push(OperationReport { index, target, status });
    }
}

#[verifier::external_type_specification]
#[verifier::external_body]
pub struct ExIoError(std::io::Error);

/// Why executing an output plan stopped.
#[derive(Debug)]
pub enum ExecutionError {
    UnsafeTarget { path: String },
    TargetExists { path: String },
    StalePlan { path: String },
    SourceUnavailable { path: String },
    RelativeSymlinkUnavailable { from: String, to: String },
    ReflinkUnsupported { source_path: String, target: String, message: String },
    InvalidPlan(String),
    Io { action: &'static str, path: String, source: std::io::Error },
}

/// The failing error together with the report of everything attempted.
#[derive(Debug)]
pub struct ExecutionFailure {
    error: ExecutionError,
    report: ExecutionReport,
}

impl ExecutionFailure {
    pub fn new(error: ExecutionError, report: ExecutionReport) -> (failure: Self)
        ensures
            failure.error_view() == error,
            failure.report_view() == report,
    {
        ExecutionFailure { error, report }
    }

    pub closed spec fn error_view(&self) -> ExecutionError {
        self.error
    }

    pub closed spec fn report_view(&self) -> ExecutionReport {
        self.report
    }

    pub fn error(&self) -> (error: &ExecutionError)
        ensures
            *error == self.error_view(),
    {
        &self.error
    }

    pub fn report(&self) -> (report: &ExecutionReport)
        ensures
            *report == self.report_view(),
    {
        &self.report
    }
}

pub fn io_error(action: &'static str, path: String, source: std::io::Error) -> (error:
    ExecutionError)
    ensures
        match error {
            ExecutionError::Io { action: a, path: p, source: s } => a == action && p@ == path@
                && s == source,
            _ => false,
        },
{
    ExecutionError::Io { action, path, source }
}

/// An error creating a target, whose I/O error is of kind `kind`:
/// `TargetExists` when the path was already taken, and an I/O error otherwise.
pub fn map_target_io(action: &'static str, path: String, source: std::io::Error, kind: IoKind) -> (error:
    ExecutionError)
    ensures
        (error is TargetExists) <==> kind == IoKind::AlreadyExists,
        match error {
            ExecutionError::TargetExists { path: p } => p@ == path@,
            ExecutionError::Io { action: a, path: p, source: s } => a == action && p@ == path@
                && s == source,
            _ => false,
        },
{
    if kind == IoKind::AlreadyExists {
        ExecutionError::TargetExists { path }
    } else {
        io_error(action, path, source)
    }
}

/// Whether some component is `..`.
pub open spec fn has_parent_component(parts: Seq<ComponentView>) -> bool {
    exists|i: int| 0 <= i < parts.len() && #[trigger] parts[i] == ComponentView::ParentDir
}

/// Whether some component is the root.
pub open spec fn has_root_component(parts: Seq<ComponentView>) -> bool {
    exists|i: int| 0 <= i < parts.len() && #[trigger] parts[i] == ComponentView::RootDir
}

/// A plan target must be a non-empty relative path with no `..` or root
/// component and no NUL character.
pub open spec fn safe_relative_target(path: Seq<char>) -> bool {
    &&& path.len() > 0
    &&& !is_absolute_spec(path)
    &&& !has_parent_component(components_spec(path))
    &&& !has_root_component(components_spec(path))
    &&& !path.contains('\0')
}

pub fn validate_relative_target(target: &str) -> (result: Result<(), ExecutionError>)
    ensures
        result is Ok <==> safe_relative_target(target@),
        match result {
            Err(ExecutionError::UnsafeTarget { path }) => path@ == target@,
            Err(_) => false,
            Ok(()) => true,
        },
{
    let chars = chars_of(target);
    let mut unsafe_target = chars.len() == 0 || chars[0] == '/';
    let parts = components(target);
    let mut i: usize = 0;
    while i < parts.len()
        invariant
            i <= parts@.len(),
            unsafe_target == (target@.len() == 0 || is_absolute_spec(target@) || exists|j: int|
                0 <= j < i && (parts.deep_view()[j] == ComponentView::ParentDir
                    || parts.deep_view()[j] == ComponentView::RootDir)),
            parts.deep_view() == components_spec(target@),
            chars@ == target@,
        decreases parts@.len() - i,
    {
        let bad = match &parts[i] {
            Component::ParentDir => true,
            Component::RootDir => true,
            _ => false,
        };
        assert(parts.deep_view()[i as int] == parts@[i as int]@);
        assert(bad == (parts.deep_view()[i as int] == ComponentView::ParentDir
            || parts.deep_view()[i as int] == ComponentView::RootDir));
        if bad {
            unsafe_target = true;
        }
        i += 1;
    }
    let mut k: usize = 0;
    let mut nul = false;
    while k < chars.len()
        invariant
            k <= chars@.len(),
            nul == exists|j: int| 0 <= j < k && chars@[j] == '\0',
        decreases chars@.len() - k,
    {
        if chars[k] == '\0' {
            nul = true;
        }
        k += 1;
    }
    proof {
        let pv = parts.deep_view();
        if has_parent_component(pv) {
            let j = choose|j: int| 0 <= j < pv.len() && pv[j] == ComponentView::ParentDir;
            assert(0 <= j < parts@.len());
        }
        if has_root_component(pv) {
            let j = choose|j: int| 0 <= j < pv.len() && pv[j] == ComponentView::RootDir;
            assert(0 <= j < parts@.len());
        }
        if nul {
            let j = choose|j: int| 0 <= j < k && chars@[j] == '\0';
            assert(target@.contains('\0'));
        }
        if target@.contains('\0') {
            let j = choose|j: int| 0 <= j < target@.len() && target@[j] == '\0';
            assert(chars@[j] == '\0');
        }
    }
    if unsafe_target || nul {
        return Err(ExecutionError::UnsafeTarget { path: target.to_owned() });
    }
    Ok(())
}

/// One step of `PathBuf` normalization: `.` is dropped, `..` removes the last
/// name (never the root), the root restarts the path, and a name is appended.
pub open spec fn normalize_step(acc: Seq<ComponentView>, c: ComponentView) -> Seq<ComponentView> {
    match c {
        ComponentView::CurDir => acc,
        ComponentView::ParentDir => if acc.len() > 0 && acc.last() is Normal {
            acc.drop_last()
        } else {
            acc
        },
        ComponentView::RootDir => seq![ComponentView::RootDir],
        ComponentView::Normal(n) => acc.push(ComponentView::Normal(n)),
    }
}

/// `parts` applied one by one to `acc` by `normalize_step`.
pub open spec fn normalize_from(acc: Seq<ComponentView>, parts: Seq<ComponentView>) -> Seq<
    ComponentView,
>
    decreases parts.len(),
{
    if parts.len() == 0 {
        acc
    } else {
        normalize_from(normalize_step(acc, parts[0]), parts.drop_first())
    }
}

/// A path with `.` removed and each `..` applied to the name before it.
pub open spec fn normalize_spec(parts: Seq<ComponentView>) -> Seq<ComponentView> {
    normalize_from(seq![], parts)
}

pub proof fn lemma_normalize_concat(
    acc: Seq<ComponentView>,
    a: Seq<ComponentView>,
    b: Seq<ComponentView>,
)
    ensures
        normalize_from(acc, a + b) == normalize_from(normalize_from(acc, a), b),
    decreases a.len(),
{
    if a.len() > 0 {
        assert((a + b).drop_first() =~= a.drop_first() + b);
        assert((a + b)[0] == a[0]);
        lemma_normalize_concat(normalize_step(acc, a[0]), a.drop_first(), b);
    } else {
        assert(a + b =~= b);
    }
}

proof fn lemma_normalize_push(acc: Seq<ComponentView>, a: Seq<ComponentView>, c: ComponentView)
    ensures
        normalize_from(acc, a.push(c)) == normalize_step(normalize_from(acc, a), c),
{
    let one = seq![c];
    assert(a.push(c) =~= a + one);
    lemma_normalize_concat(acc, a, one);
    assert(one.drop_first() =~= Seq::<ComponentView>::empty());
    let x = normalize_from(acc, a);
    assert(normalize_from(x, one) == normalize_from(normalize_step(x, one[0]), one.drop_first()));
    assert(normalize_from(normalize_step(x, c), Seq::<ComponentView>::empty()) == normalize_step(x, c));
}

/// `path` with `.` and `..` components resolved textually.
pub fn normalize_path(path: &Vec<Component>) -> (normalized: Vec<Component>)
    ensures
        normalized.deep_view() == normalize_spec(path.deep_view()),
{
    let mut normalized: Vec<Component> = Vec::new();
    let mut i: usize = 0;
    while i < path.len()
        invariant
            i <= path@.len(),
            normalized.deep_view() == normalize_spec(path.deep_view().take(i as int)),
        decreases path@.len() - i,
    {
        proof {
            assert(path.deep_view().take(i + 1) =~= path.deep_view().take(i as int).push(
                path.deep_view()[i as int],
            ));
            lemma_normalize_push(seq![], path.deep_view().take(i as int), path.deep_view()[i as int]);
        }
        let ghost before = normalized.deep_view();
        match &path[i] {
            Component::CurDir => {},
            Component::ParentDir => {
                let n = normalized.len();
                if n > 0 {
                    if let Component::Normal(_) = &normalized[n - 1] {
                        normalized.pop();
                        assert(normalized.deep_view() =~= before.drop_last());
                    }
                }
            },
            Component::RootDir => {
                normalized = Vec::new();
                normalized.push(Component::RootDir);
                assert(normalized.deep_view() =~= seq![ComponentView::RootDir]);
            },
            Component::Normal(name) => {
                normalized.push(Component::Normal(name.clone()));
                assert(normalized.deep_view() =~= before.push(path.deep_view()[i as int]));
            },
        }
        i += 1;
    }
    assert(path.deep_view().take(path@.len() as int) =~= path.deep_view());
    normalized
}

/// The number of normal names in `parts`.
pub open spec fn count_normal(parts: Seq<ComponentView>) -> nat
    decreases parts.len(),
{
    if parts.len() == 0 {
        0
    } else {
        count_normal(parts.drop_last()) + if parts.last() is Normal {
            1nat
        } else {
            0nat
        }
    }
}

/// The length of the longest common prefix of `a` and `b`.
pub open spec fn common_prefix_len(a: Seq<ComponentView>, b: Seq<ComponentView>) -> nat
    decreases a.len(),
{
    if a.len() == 0 || b.len() == 0 || a[0] != b[0] {
        0
    } else {
        1 + common_prefix_len(a.drop_first(), b.drop_first())
    }
}

/// Whether a path starts at the root.
pub open spec fn rooted(parts: Seq<ComponentView>) -> bool {
    parts.len() > 0 && parts[0] == ComponentView::RootDir
}

/// The path from directory `from` to `to`: one `..` for each name of `from`
/// beyond the common prefix, then the rest of `to`. None when exactly one of
/// them starts at the root.
pub open spec fn relative_path_spec(from: Seq<ComponentView>, to: Seq<ComponentView>) -> Option<
    Seq<ComponentView>,
> {
    if rooted(from) != rooted(to) {
        None
    } else {
        let common = common_prefix_len(from, to) as int;
        Some(
            Seq::new(count_normal(from.skip(common)), |i: int| ComponentView::ParentDir) + to.skip(
                common,
            ),
        )
    }
}

proof fn lemma_common_prefix(a: Seq<ComponentView>, b: Seq<ComponentView>)
    ensures
        common_prefix_len(a, b) <= a.len(),
        common_prefix_len(a, b) <= b.len(),
        forall|j: int| 0 <= j < common_prefix_len(a, b) ==> a[j] == b[j],
        common_prefix_len(a, b) < a.len() && common_prefix_len(a, b) < b.len() ==> a[
            common_prefix_len(a, b) as int
        ] != b[common_prefix_len(a, b) as int],
    decreases a.len(),
{
    if !(a.len() == 0 || b.len() == 0 || a[0] != b[0]) {
        lemma_common_prefix(a.drop_first(), b.drop_first());
        let n = common_prefix_len(a, b);
        assert forall|j: int| 0 <= j < n implies a[j] == b[j] by {
            if j > 0 {
                assert(a.drop_first()[j - 1] == a[j]);
                assert(b.drop_first()[j - 1] == b[j]);
            }
        }
    }
}

proof fn lemma_count_normal_push(parts: Seq<ComponentView>, c: ComponentView)
    ensures
        count_normal(parts.push(c)) == count_normal(parts) + if c is Normal {
            1nat
        } else {
            0nat
        },
{
    assert(parts.push(c).drop_last() =~= parts);
}

fn component_equal_at(a: &Vec<Component>, b: &Vec<Component>, i: usize) -> (equal: bool)
    requires
        i < a@.len(),
        i < b@.len(),
    ensures
        equal == (a.deep_view()[i as int] == b.deep_view()[i as int]),
{
    assert(a.deep_view()[i as int] == a@[i as int]@);
    assert(b.deep_view()[i as int] == b@[i as int]@);
    component_equal(&a[i], &b[i])
}

pub fn relative_path(from: &Vec<Component>, to: &Vec<Component>) -> (relative: Option<
    Vec<Component>,
>)
    ensures
        match relative {
            Some(r) => relative_path_spec(from.deep_view(), to.deep_view()) == Some(
                r.deep_view(),
            ),
            None => relative_path_spec(from.deep_view(), to.deep_view()) is None,
        },
{
    let from_rooted = from.len() > 0 && matches!(&from[0], Component::RootDir);
    let to_rooted = to.len() > 0 && matches!(&to[0], Component::RootDir);
    if from_rooted != to_rooted {
        return None;
    }
    let mut common: usize = 0;
    proof {
        lemma_common_prefix(from.deep_view(), to.deep_view());
    }
    while common < from.len() && common < to.len() && component_equal_at(from, to, common)
        invariant
            common <= from@.len(),
            common <= to@.len(),
            common <= common_prefix_len(from.deep_view(), to.deep_view()),
            forall|j: int| 0 <= j < common_prefix_len(from.deep_view(), to.deep_view())
                ==> from.deep_view()[j] == to.deep_view()[j],
            common_prefix_len(from.deep_view(), to.deep_view()) <= from@.len(),
            common_prefix_len(from.deep_view(), to.deep_view()) <= to@.len(),
            common_prefix_len(from.deep_view(), to.deep_view()) < from@.len()
                && common_prefix_len(from.deep_view(), to.deep_view()) < to@.len()
                ==> from.deep_view()[common_prefix_len(from.deep_view(), to.deep_view()) as int]
                != to.deep_view()[common_prefix_len(from.deep_view(), to.deep_view()) as int],
        decreases from@.len() - common,
    {
        common += 1;
    }
    assert(common == common_prefix_len(from.deep_view(), to.deep_view()));
    let mut result: Vec<Component> = Vec::new();
    let ghost rest = from.deep_view().skip(common as int);
    let mut i = common;
    while i < from.len()
        invariant
            common <= i <= from@.len(),
            rest == from.deep_view().skip(common as int),
            result.deep_view() == Seq::new(
                count_normal(rest.take(i - common)),
                |k: int| ComponentView::ParentDir,
            ),
        decreases from@.len() - i,
    {
        proof {
            assert(rest.take(i + 1 - common) =~= rest.take(i - common).push(rest[i - common]));
            lemma_count_normal_push(rest.take(i - common), rest[i - common]);
        }
        let ghost before = result.deep_view();
        assert(from.deep_view()[i as int] == from@[i as int]@);
        assert(rest[i - common] == from.deep_view()[i as int]);
        if let Component::Normal(_) = &from[i] {
            result.push(Component::ParentDir);
            assert(result.deep_view() =~= before.push(ComponentView::ParentDir));
        }
        assert(result.deep_view() =~= Seq::new(
            count_normal(rest.take(i + 1 - common)),
            |k: int| ComponentView::ParentDir,
        ));
        i += 1;
    }
    assert(rest.take(from@.len() - common) =~= rest);
    let ghost ups = result.deep_view();
    let mut j = common;
    while j < to.len()
        invariant
            common <= j <= to@.len(),
            result.deep_view() == ups + to.deep_view().skip(common as int).take(j - common),
        decreases to@.len() - j,
    {
        let ghost before = result.deep_view();
        let next = to[j].clone();
        assert(to.deep_view()[j as int] == to@[j as int]@);
        result.push(next);
        assert(result.deep_view() =~= before.push(to.deep_view()[j as int]));
        assert(result.deep_view() =~= ups + to.deep_view().skip(common as int).take(j + 1 - common));
        j += 1;
    }
    assert(to.deep_view().skip(common as int).take(to@.len() - common) =~= to.deep_view().skip(
        common as int,
    ));
    Some(result)
}


/// Whether every component is a normal name.
pub open spec fn all_names(parts: Seq<ComponentView>) -> bool {
    forall|i: int| 0 <= i < parts.len() ==> #[trigger] parts[i] is Normal
}

/// An absolute path in canonical form: the root followed by names only.
pub open spec fn canonical_absolute(parts: Seq<ComponentView>) -> bool {
    rooted(parts) && all_names(parts.drop_first())
}

proof fn lemma_normalize_names(acc: Seq<ComponentView>, names: Seq<ComponentView>)
    requires
        all_names(names),
    ensures
        normalize_from(acc, names) == acc + names,
    decreases names.len(),
{
    if names.len() > 0 {
        assert(names[0] is Normal);
        assert(normalize_step(acc, names[0]) == acc.push(names[0]));
        assert forall|i: int| 0 <= i < names.drop_first().len() implies #[trigger] names.drop_first()[i] is Normal by {
            assert(names.drop_first()[i] == names[i + 1]);
        }
        lemma_normalize_names(acc.push(names[0]), names.drop_first());
        assert(acc.push(names[0]) + names.drop_first() =~= acc + names);
    } else {
        assert(acc + names =~= acc);
    }
}

proof fn lemma_normalize_ups(acc: Seq<ComponentView>, names: Seq<ComponentView>)
    requires
        all_names(names),
    ensures
        normalize_from(acc + names, Seq::new(names.len(), |i: int| ComponentView::ParentDir)) == acc,
    decreases names.len(),
{
    let ups = Seq::new(names.len(), |i: int| ComponentView::ParentDir);
    if names.len() > 0 {
        let shorter = names.drop_last();
        assert(all_names(shorter)) by {
            assert forall|i: int| 0 <= i < shorter.len() implies #[trigger] shorter[i] is Normal by {
                assert(shorter[i] == names[i]);
            }
        }
        assert((acc + names).last() == names.last());
        assert(names.last() is Normal) by {
            assert(names[names.len() - 1] is Normal);
        }
        assert((acc + names).drop_last() =~= acc + shorter);
        assert(normalize_step(acc + names, ups[0]) == acc + shorter);
        assert(ups.drop_first() =~= Seq::new(shorter.len(), |i: int| ComponentView::ParentDir));
        lemma_normalize_ups(acc, shorter);
    } else {
        assert(acc + names =~= acc);
    }
}

proof fn lemma_count_names(parts: Seq<ComponentView>)
    requires
        all_names(parts),
    ensures
        count_normal(parts) == parts.len(),
    decreases parts.len(),
{
    if parts.len() > 0 {
        assert(all_names(parts.drop_last())) by {
            assert forall|i: int| 0 <= i < parts.drop_last().len() implies #[trigger] parts.drop_last()[i] is Normal by {
                assert(parts.drop_last()[i] == parts[i]);
            }
        }
        lemma_count_names(parts.drop_last());
        assert(parts.last() is Normal) by {
            assert(parts[parts.len() - 1] is Normal);
        }
    }
}

proof fn lemma_tail_names(parts: Seq<ComponentView>, k: int)
    requires
        canonical_absolute(parts),
        1 <= k <= parts.len(),
    ensures
        all_names(parts.skip(k)),
{
    assert forall|i: int| 0 <= i < parts.skip(k).len() implies #[trigger] parts.skip(k)[i] is Normal by {
        assert(parts.skip(k)[i] == parts.drop_first()[k + i - 1]);
    }
}

/// For two canonical absolute paths, the relative path from `from` to `to`
/// exists, and following it from `from` leads exactly to `to`.
pub proof fn law_relative_path_leads_to_target(from: Seq<ComponentView>, to: Seq<ComponentView>)
    requires
        canonical_absolute(from),
        canonical_absolute(to),
    ensures
        relative_path_spec(from, to) is Some,
        normalize_spec(from + relative_path_spec(from, to)->0) == to,
{
    lemma_common_prefix(from, to);
    let c = common_prefix_len(from, to) as int;
    assert(c >= 1) by {
        assert(from[0] == to[0]);
    }
    let f = from.skip(c);
    let t = to.skip(c);
    lemma_tail_names(from, c);
    lemma_tail_names(to, c);
    lemma_count_names(f);
    let ups = Seq::new(f.len(), |i: int| ComponentView::ParentDir);
    let r = relative_path_spec(from, to)->0;
    assert(r == ups + t);
    let head = from.take(c);
    assert(from =~= head + f);
    assert(head =~= to.take(c)) by {
        assert forall|j: int| 0 <= j < c implies head[j] == to.take(c)[j] by {}
    }
    assert(to =~= head + t);
    lemma_normalize_names(seq![ComponentView::RootDir], from.drop_first());
    assert(normalize_from(seq![], from) == normalize_from(normalize_step(seq![], from[0]), from.drop_first()));
    assert(seq![ComponentView::RootDir] + from.drop_first() =~= from);
    assert(normalize_spec(from) == from);
    lemma_normalize_concat(seq![], from, r);
    lemma_normalize_concat(from, ups, t);
    lemma_normalize_ups(head, f);
    lemma_normalize_names(head, t);
}

/// How a work is linked or copied into the output tree.
#[derive(Debug, Clone, Copy, PartialEq, Eq, Structural)]
pub enum PlacementKind {
    Symlink,
    Hardlink,
    Copy,
    Reflink,
}

/// The operation that places a work: its kind and the path it links or
/// copies from. Relative links point from the target's directory to the
/// canonical source.
pub open spec fn placement_spec(
    mode: PlacementMode,
    canonical_source: Seq<ComponentView>,
    target_directory: Option<Seq<ComponentView>>,
) -> Option<Result<(PlacementKind, Seq<ComponentView>), ()>> {
    match mode {
        PlacementMode::InPlace => None,
        PlacementMode::RelativeSymlink => match target_directory {
            None => Some(Err(())),
            Some(dir) => match relative_path_spec(dir, canonical_source) {
                Some(r) => Some(Ok((PlacementKind::Symlink, r))),
                None => Some(Err(())),
            },
        },
        PlacementMode::AbsoluteSymlink => Some(Ok((PlacementKind::Symlink, canonical_source))),
        PlacementMode::Hardlink => Some(Ok((PlacementKind::Hardlink, canonical_source))),
        PlacementMode::Copy => Some(Ok((PlacementKind::Copy, canonical_source))),
        PlacementMode::Reflink => Some(Ok((PlacementKind::Reflink, canonical_source))),
    }
}

/// Decides how a work is placed in the output tree, given its canonical
/// source and the canonical directory that will hold the target (`None` when
/// the target has no parent). `Ok(None)` leaves the work where it is; a
/// relative link that cannot reach the source is refused.
pub fn placement_operation(
    mode: PlacementMode,
    canonical_source: &Vec<Component>,
    target_directory: Option<&Vec<Component>>,
) -> (result: Result<Option<(PlacementKind, Vec<Component>)>, bool>)
    ensures
        match placement_spec(
            mode,
            canonical_source.deep_view(),
            match target_directory {
                Some(d) => Some(d.deep_view()),
                None => None,
            },
        ) {
            None => result is Ok && result->Ok_0 is None,
            Some(Ok((kind, from))) => result is Ok && result->Ok_0 is Some && result->Ok_0->Some_0.0 == kind
                && result->Ok_0->Some_0.1.deep_view() == from,
            Some(Err(())) => result is Err && (result->Err_0 <==> target_directory is None),
        },
{
    match mode {
        PlacementMode::InPlace => Ok(None),
        PlacementMode::RelativeSymlink => match target_directory {
            None => Err(true),
            Some(dir) => match relative_path(dir, canonical_source) {
                Some(r) => Ok(Some((PlacementKind::Symlink, r))),
                None => Err(false),
            },
        },
        PlacementMode::AbsoluteSymlink => Ok(Some((PlacementKind::Symlink, crate::fs_policy::clone_path(canonical_source)))),
        PlacementMode::Hardlink => Ok(Some((PlacementKind::Hardlink, crate::fs_policy::clone_path(canonical_source)))),
        PlacementMode::Copy => Ok(Some((PlacementKind::Copy, crate::fs_policy::clone_path(canonical_source)))),
        PlacementMode::Reflink => Ok(Some((PlacementKind::Reflink, crate::fs_policy::clone_path(canonical_source)))),
    }
}

/// The normal components of a path, in order.
pub open spec fn normal_segments(parts: Seq<ComponentView>) -> Seq<Seq<char>>
    decreases parts.len(),
{
    if parts.len() == 0 {
        seq![]
    } else {
        let rest = normal_segments(parts.drop_last());
        match parts.last() {
            ComponentView::Normal(s) => rest.push(s),
            _ => rest,
        }
    }
}

/// The directories between the output root and a target that must not be
/// symbolic links: the root followed by one more normal segment of the
/// target's parent at a time.
pub open spec fn ancestors_spec(root: Seq<ComponentView>, target_parent: Seq<ComponentView>) -> Seq<Seq<ComponentView>> {
    let segments = normal_segments(target_parent);
    Seq::new(segments.len() + 1, |k: int| root + segments.take(k).map_values(|s: Seq<char>| ComponentView::Normal(s)))
}

/// The paths inspected before writing beneath the output root, in order.
pub fn ancestors_to_inspect(root: &Vec<Component>, target_parent: &Vec<Component>) -> (paths: Vec<Vec<Component>>)
    ensures
        crate::fs_policy::paths_view(paths@) == ancestors_spec(root.deep_view(), target_parent.deep_view()),
{
    let ghost segments = normal_segments(target_parent.deep_view());
    let mut paths: Vec<Vec<Component>> = Vec::new();
    let mut current = crate::fs_policy::clone_path(root);
    let ghost mut taken: int = 0;
    paths.push(crate::fs_policy::clone_path(&current));
    assert(segments.take(0).map_values(|s: Seq<char>| ComponentView::Normal(s)) =~= Seq::<ComponentView>::empty());
    assert(root.deep_view() + Seq::<ComponentView>::empty() =~= root.deep_view());
    let mut i: usize = 0;
    assert(target_parent.deep_view().take(0) =~= Seq::<ComponentView>::empty());
    while i < target_parent.len()
        invariant
            i <= target_parent@.len(),
            segments == normal_segments(target_parent.deep_view()),
            normal_segments(target_parent.deep_view().take(i as int)).len() + 1 == paths@.len(),
            current.deep_view() == root.deep_view() + normal_segments(target_parent.deep_view().take(i as int)).map_values(|s: Seq<char>| ComponentView::Normal(s)),
            crate::fs_policy::paths_view(paths@) == ancestors_spec(root.deep_view(), target_parent.deep_view().take(i as int)),
        decreases target_parent@.len() - i,
    {
        let ghost before = target_parent.deep_view().take(i as int);
        let ghost after = target_parent.deep_view().take(i + 1);
        assert(after.drop_last() =~= before);
        assert(after.last() == target_parent.deep_view()[i as int]);
        assert(target_parent.deep_view()[i as int] == target_parent@[i as int]@);
        match &target_parent[i] {
            Component::Normal(s) => {
                let ghost prior = crate::fs_policy::paths_view(paths@);
                let ghost old_current = current.deep_view();
                let piece = Component::Normal(s.clone());
                assert(piece.deep_view() == ComponentView::Normal(s@));
                current.push(piece);
                assert(current.deep_view() =~= old_current.push(ComponentView::Normal(s@)));
                paths.push(crate::fs_policy::clone_path(&current));
                proof {
                    let segs = normal_segments(after);
                    assert(segs == normal_segments(before).push(s@));
                    assert(segs.map_values(|x: Seq<char>| ComponentView::Normal(x)) =~= normal_segments(before).map_values(|x: Seq<char>| ComponentView::Normal(x)).push(ComponentView::Normal(s@)));
                    assert(current.deep_view() =~= root.deep_view() + segs.map_values(|x: Seq<char>| ComponentView::Normal(x)));
                    assert forall|k: int| 0 <= k < segs.len() + 1 implies #[trigger] ancestors_spec(root.deep_view(), after)[k] == crate::fs_policy::paths_view(paths@)[k] by {
                        if k < segs.len() {
                            assert(segs.take(k) =~= normal_segments(before).take(k));
                            assert(prior[k] == ancestors_spec(root.deep_view(), before)[k]);
                        } else {
                            assert(segs.take(k) =~= segs);
                        }
                    }
                    assert(crate::fs_policy::paths_view(paths@) =~= ancestors_spec(root.deep_view(), after));
                }
            },
            _ => {
                proof {
                    assert(normal_segments(after) == normal_segments(before));
                    assert(ancestors_spec(root.deep_view(), after) =~= ancestors_spec(root.deep_view(), before));
                }
            },
        }
        i += 1;
    }
    assert(target_parent.deep_view().take(i as int) =~= target_parent.deep_view());
    paths
}

/// The kind of an output operation.
#[derive(Debug, Clone, Copy, PartialEq, Eq, Structural)]
pub enum OperationKind {
    CreateDirectory,
    WriteBytes,
    Copy,
    Symlink,
    Hardlink,
    Reflink,
}

/// What stands at an operation's target, as `symlink_metadata` sees it.
#[derive(Debug, Clone, Copy, PartialEq, Eq, Structural)]
pub enum TargetState {
    Missing,
    Directory,
    Other,
}

/// An operation's source: not resolvable, a regular file, or anything else
/// (missing, a directory). Operations without a source ignore it.
#[derive(Debug, Clone, Copy, PartialEq, Eq, Structural)]
pub enum SourceState {
    Unresolved,
    File,
    NotFile,
}

/// What running an operation takes.
#[derive(Debug, Clone, Copy, PartialEq, Eq, Structural)]
pub enum OperationStep {
    /// A dry run: nothing is touched.
    DryRun,
    /// The directory already exists: nothing is left to do.
    AlreadyDone,
    /// Create the directory and its parents.
    CreateDirectory,
    /// Prepare the content in a temporary file beside the target, then
    /// publish it: by a hard link when overwriting is refused, by a rename
    /// when it is allowed.
    ThroughTemporary { publish: OverwritePolicy },
    /// Create the link at the target itself.
    AtTarget,
}

/// Why an operation may not run.
#[derive(Debug, Clone, Copy, PartialEq, Eq, Structural)]
pub enum StepFailure {
    /// Something already stands at the target.
    TargetExists,
    /// The source is not a regular file.
    SourceUnavailable,
    /// The operation names no source it can be resolved to.
    NoSource,
}

/// Whether overwriting is refused and something stands at the target.
pub open spec fn blocked(policy: ExecutionPolicy, target: TargetState) -> bool {
    policy.overwrite == OverwritePolicy::NoOverwrite && target != TargetState::Missing
}

/// What an operation takes, or why it may not run. A dry run touches
/// nothing; an existing directory counts as done and anything else there
/// blocks a directory; a source must be a regular file; refused overwriting
/// blocks an existing target; links are made at the target unless they
/// replace it, everything else goes through a temporary file.
pub open spec fn operation_step_spec(
    kind: OperationKind,
    policy: ExecutionPolicy,
    target: TargetState,
    source: SourceState,
) -> Result<OperationStep, StepFailure> {
    if policy.dry_run {
        Ok(OperationStep::DryRun)
    } else {
        match kind {
            OperationKind::CreateDirectory => match target {
                TargetState::Directory => Ok(OperationStep::AlreadyDone),
                TargetState::Other => Err(StepFailure::TargetExists),
                TargetState::Missing => Ok(OperationStep::CreateDirectory),
            },
            OperationKind::WriteBytes => if blocked(policy, target) {
                Err(StepFailure::TargetExists)
            } else {
                Ok(OperationStep::ThroughTemporary { publish: policy.overwrite })
            },
            _ => match source {
                SourceState::Unresolved => Err(StepFailure::NoSource),
                SourceState::NotFile => Err(StepFailure::SourceUnavailable),
                SourceState::File => if blocked(policy, target) {
                    Err(StepFailure::TargetExists)
                } else if (kind == OperationKind::Symlink || kind == OperationKind::Hardlink)
                    && policy.overwrite == OverwritePolicy::NoOverwrite {
                    Ok(OperationStep::AtTarget)
                } else {
                    Ok(OperationStep::ThroughTemporary { publish: policy.overwrite })
                },
            },
        }
    }
}

/// Decides what an operation takes, or why it may not run.
pub fn operation_step(kind: OperationKind, policy: ExecutionPolicy, target: TargetState, source: SourceState) -> (step: Result<OperationStep, StepFailure>)
    ensures
        step == operation_step_spec(kind, policy, target, source),
{
    if policy.dry_run {
        return Ok(OperationStep::DryRun);
    }
    let blocked = policy.overwrite == OverwritePolicy::NoOverwrite && target != TargetState::Missing;
    match kind {
        OperationKind::CreateDirectory => match target {
            TargetState::Directory => Ok(OperationStep::AlreadyDone),
            TargetState::Other => Err(StepFailure::TargetExists),
            TargetState::Missing => Ok(OperationStep::CreateDirectory),
        },
        OperationKind::WriteBytes => {
            if blocked {
                Err(StepFailure::TargetExists)
            } else {
                Ok(OperationStep::ThroughTemporary { publish: policy.overwrite })
            }
        },
        _ => match source {
            SourceState::Unresolved => Err(StepFailure::NoSource),
            SourceState::NotFile => Err(StepFailure::SourceUnavailable),
            SourceState::File => {
                if blocked {
                    Err(StepFailure::TargetExists)
                } else if (kind == OperationKind::Symlink || kind == OperationKind::Hardlink)
                    && policy.overwrite == OverwritePolicy::NoOverwrite {
                    Ok(OperationStep::AtTarget)
                } else {
                    Ok(OperationStep::ThroughTemporary { publish: policy.overwrite })
                }
            },
        },
    }
}

/// The error of a failed step, naming the target or the source.
pub fn step_error(failure: StepFailure, target: String, source: String) -> (error: ExecutionError)
    ensures
        match failure {
            StepFailure::TargetExists => error matches ExecutionError::TargetExists { path } && path@ == target@,
            StepFailure::SourceUnavailable => error matches ExecutionError::SourceUnavailable { path } && path@ == source@,
            StepFailure::NoSource => error matches ExecutionError::InvalidPlan(m) && m@ == "operation has no source"@,
        },
{
    match failure {
        StepFailure::TargetExists => ExecutionError::TargetExists { path: target },
        StepFailure::SourceUnavailable => ExecutionError::SourceUnavailable { path: source },
        StepFailure::NoSource => ExecutionError::InvalidPlan("operation has no source".to_owned()),
    }
}

/// What one operation of a plan is checked with.
#[derive(Debug, Clone, Copy, PartialEq, Eq, Structural)]
pub struct OperationCheck {
    pub kind: OperationKind,
    pub target: TargetState,
    pub source: SourceState,
}

pub open spec fn check_step(c: OperationCheck, policy: ExecutionPolicy) -> Result<OperationStep, StepFailure> {
    operation_step_spec(c.kind, policy, c.target, c.source)
}

/// Checks every operation of a plan before anything is written: either the
/// steps of all operations, in plan order, or the first operation that may
/// not run and why. Nothing may be written unless every check passes.
pub fn preflight(checks: &Vec<OperationCheck>, policy: ExecutionPolicy) -> (result: Result<Vec<OperationStep>, (usize, StepFailure)>)
    ensures
        result is Ok <==> forall|i: int| 0 <= i < checks@.len() ==> (#[trigger] check_step(checks@[i], policy)) is Ok,
        match result {
            Ok(steps) => steps@.len() == checks@.len() && forall|i: int| 0 <= i < checks@.len()
                ==> Ok::<OperationStep, StepFailure>(#[trigger] steps@[i]) == check_step(checks@[i], policy),
            Err((index, failure)) => index < checks@.len() && check_step(checks@[index as int], policy)
                == Err::<OperationStep, StepFailure>(failure) && forall|j: int| 0 <= j < index
                ==> (#[trigger] check_step(checks@[j], policy)) is Ok,
        },
{
    let mut steps: Vec<OperationStep> = Vec::new();
    let mut i: usize = 0;
    while i < checks.len()
        invariant
            i <= checks@.len(),
            steps@.len() == i,
            forall|k: int| 0 <= k < i ==> Ok::<OperationStep, StepFailure>(#[trigger] steps@[k]) == check_step(checks@[k], policy),
        decreases checks@.len() - i,
    {
        let check = checks[i];
        match operation_step(check.kind, policy, check.target, check.source) {
            Ok(step) => steps.push(step),
            Err(failure) => {
                proof {
                    assert forall|j: int| 0 <= j < i implies (#[trigger] check_step(checks@[j], policy)) is Ok by {
                        assert(Ok::<OperationStep, StepFailure>(steps@[j]) == check_step(checks@[j], policy));
                    }
                }
                return Err((i, failure));
            },
        }
        i += 1;
    }
    proof {
        assert forall|k: int| 0 <= k < checks@.len() implies (#[trigger] check_step(checks@[k], policy)) is Ok by {
            assert(Ok::<OperationStep, StepFailure>(steps@[k]) == check_step(checks@[k], policy));
        }
    }
    Ok(steps)
}

/// The report of a plan stopped before any write: the failing operation
/// alone, marked as failed.
pub fn preflight_report(index: usize, target: String) -> (report: ExecutionReport)
    ensures
        report.operations_view().len() == 1,
        report.operations_view()[0].index == index,
        report.operations_view()[0].target@ == target@,
        report.operations_view()[0].status == OperationStatus::Failed,
{
    let mut report = ExecutionReport::new();
    report.record(index, target, OperationStatus::Failed);
    report
}

/// The status of an operation that ran through its step without error.
pub fn completed_status(step: OperationStep, kind: OperationKind) -> (status: OperationStatus)
    ensures
        status == if step == OperationStep::DryRun {
            OperationStatus::DryRun
        } else if kind == OperationKind::Reflink {
            OperationStatus::Reflinked
        } else {
            OperationStatus::Completed
        },
{
    if step == OperationStep::DryRun {
        OperationStatus::DryRun
    } else if kind == OperationKind::Reflink {
        OperationStatus::Reflinked
    } else {
        OperationStatus::Completed
    }
}

/// The kind of an I/O error, as the reflink step reads it.
#[derive(Debug, Clone, Copy, PartialEq, Eq, Structural)]
pub enum IoKind {
    NotFound,
    PermissionDenied,
    AlreadyExists,
    Other,
}

/// What follows a reflink that failed.
#[derive(Debug, Clone, Copy, PartialEq, Eq, Structural)]
pub enum ReflinkFailure {
    /// The source is gone.
    SourceUnavailable,
    /// Access was denied: reported as an I/O error of the reflink.
    Denied,
    /// The temporary path was taken: reported as an I/O error on it.
    TemporaryTaken,
    /// Reflinks are unsupported and the policy requires them.
    Unsupported,
    /// Reflinks are unsupported: copy through a temporary file instead.
    CopyInstead,
}

pub open spec fn reflink_failure_spec(kind: IoKind, policy: ReflinkPolicy) -> ReflinkFailure {
    match kind {
        IoKind::NotFound => ReflinkFailure::SourceUnavailable,
        IoKind::PermissionDenied => ReflinkFailure::Denied,
        IoKind::AlreadyExists => ReflinkFailure::TemporaryTaken,
        IoKind::Other => if policy == ReflinkPolicy::Required {
            ReflinkFailure::Unsupported
        } else {
            ReflinkFailure::CopyInstead
        },
    }
}

/// Decides what follows a failed reflink, and whether the temporary path is
/// removed: it is, unless it was already taken by something else.
pub fn reflink_failure(kind: IoKind, policy: ReflinkPolicy) -> (decision: (ReflinkFailure, bool))
    ensures
        decision.0 == reflink_failure_spec(kind, policy),
        decision.1 == (kind != IoKind::AlreadyExists),
{
    let remove = kind != IoKind::AlreadyExists;
    let next = match kind {
        IoKind::NotFound => ReflinkFailure::SourceUnavailable,
        IoKind::PermissionDenied => ReflinkFailure::Denied,
        IoKind::AlreadyExists => ReflinkFailure::TemporaryTaken,
        IoKind::Other => if policy == ReflinkPolicy::Required {
            ReflinkFailure::Unsupported
        } else {
            ReflinkFailure::CopyInstead
        },
    };
    (next, remove)
}

/// The kind of file a fingerprint saw.
#[derive(Debug, Clone, Copy, PartialEq, Eq, Structural)]
pub enum FileKind {
    File,
    Directory,
    Symlink,
    Other,
}

/// The device and inode of a file.
#[derive(Debug, Clone, Copy, PartialEq, Eq, Structural)]
pub struct FileIdentity {
    pub device: u64,
    pub inode: u64,
}

/// The observed state of one path of a prepared plan.
#[derive(Debug, Clone, Copy, PartialEq, Eq, Structural)]
pub enum PathFingerprint {
    Missing,
    Present { kind: FileKind, len: u64, modified_unix_nanos: Option<u128>, identity: Option<FileIdentity> },
}

/// The first path whose state changed since the plan was prepared, if any;
/// a prepared plan runs only where there is none.
pub fn first_stale(observed: &Vec<PathFingerprint>, current: &Vec<PathFingerprint>) -> (stale: Option<usize>)
    requires
        observed@.len() == current@.len(),
    ensures
        match stale {
            Some(i) => i < observed@.len() && observed@[i as int] != current@[i as int]
                && forall|j: int| 0 <= j < i ==> #[trigger] observed@[j] == current@[j],
            None => forall|j: int| 0 <= j < observed@.len() ==> #[trigger] observed@[j] == current@[j],
        },
{
    let mut i: usize = 0;
    while i < observed.len()
        invariant
            i <= observed@.len(),
            observed@.len() == current@.len(),
            forall|j: int| 0 <= j < i ==> #[trigger] observed@[j] == current@[j],
        decreases observed@.len() - i,
    {
        if observed[i] != current[i] {
            return Some(i);
        }
        i += 1;
    }
    None
}

/// With overwriting refused, an operation whose target already exists either
/// finds the directory it was to create or may not run: nothing is written
/// over it.
pub proof fn law_no_overwrite_keeps_existing_targets(kind: OperationKind, policy: ExecutionPolicy, target: TargetState, source: SourceState)
    requires
        !policy.dry_run,
        policy.overwrite == OverwritePolicy::NoOverwrite,
        target != TargetState::Missing,
    ensures
        operation_step_spec(kind, policy, target, source) is Err || (kind == OperationKind::CreateDirectory
            && target == TargetState::Directory && operation_step_spec(kind, policy, target, source)
            == Ok::<OperationStep, StepFailure>(OperationStep::AlreadyDone)),
{
}

/// A dry run passes every check and touches nothing.
pub proof fn law_dry_run_touches_nothing(checks: Seq<OperationCheck>, policy: ExecutionPolicy)
    requires
        policy.dry_run,
    ensures
        forall|i: int| 0 <= i < checks.len() ==> #[trigger] check_step(checks[i], policy)
            == Ok::<OperationStep, StepFailure>(OperationStep::DryRun),
{
}

/// The status a run reports for an operation: the one it finished with, or
/// `Failed` where it stopped with an error.
pub open spec fn reported_status(outcome: Option<OperationStatus>) -> OperationStatus {
    match outcome {
        Some(status) => status,
        None => OperationStatus::Failed,
    }
}

/// Records the outcome of the next operation of a run; the run stops where
/// the operation failed.
pub fn record_outcome(report: &mut ExecutionReport, index: usize, target: String, outcome: Option<OperationStatus>) -> (stop: bool)
    ensures
        final(report).operations_view() == old(report).operations_view().push(
            OperationReport { index, target, status: reported_status(outcome) },
        ),
        stop == (outcome is None),
{
    let status = match outcome {
        Some(status) => status,
        None => OperationStatus::Failed,
    };
    report.record(index, target, status);
    outcome.is_none()
}

/// The report of a run from the outcomes of its operations in plan order
/// (`None` for one that failed): every operation up to and including the
/// first failure, in order, with the failed one last; and the position of
/// that failure, if any.
pub fn run_report(targets: &Vec<String>, outcomes: &Vec<Option<OperationStatus>>) -> (run: (ExecutionReport, Option<usize>))
    requires
        outcomes@.len() <= targets@.len(),
    ensures
        match run.1 {
            Some(i) => i < outcomes@.len() && outcomes@[i as int] is None
                && run.0.operations_view().len() == i + 1
                && forall|j: int| 0 <= j < i ==> (#[trigger] outcomes@[j]) is Some,
            None => run.0.operations_view().len() == outcomes@.len()
                && forall|j: int| 0 <= j < outcomes@.len() ==> (#[trigger] outcomes@[j]) is Some,
        },
        forall|k: int| 0 <= k < run.0.operations_view().len() ==> {
            let entry = #[trigger] run.0.operations_view()[k];
            &&& entry.index == k
            &&& entry.target@ == targets@[k]@
            &&& entry.status == reported_status(outcomes@[k])
        },
{
    let mut report = ExecutionReport::new();
    let mut i: usize = 0;
    while i < outcomes.len()
        invariant
            i <= outcomes@.len(),
            outcomes@.len() <= targets@.len(),
            report.operations_view().len() == i,
            forall|j: int| 0 <= j < i ==> (#[trigger] outcomes@[j]) is Some,
            forall|k: int| 0 <= k < i ==> {
                let entry = #[trigger] report.operations_view()[k];
                &&& entry.index == k
                &&& entry.target@ == targets@[k]@
                &&& entry.status == reported_status(outcomes@[k])
            },
        decreases outcomes@.len() - i,
    {
        let target = targets[i].clone();
        let ghost before = report.operations_view();
        let stop = record_outcome(&mut report, i, target, outcomes[i]);
        assert(report.operations_view()[i as int] == OperationReport { index: i, target, status: reported_status(outcomes@[i as int]) });
        assert forall|k: int| 0 <= k < i implies report.operations_view()[k] == before[k] by {}
        if stop {
            return (report, Some(i));
        }
        i += 1;
    }
    (report, None)
}

/// The name a placement mode is configured by.
pub open spec fn mode_name(mode: PlacementMode) -> Seq<char> {
    match mode {
        PlacementMode::InPlace => "in_place"@,
        PlacementMode::RelativeSymlink => "relative_symlink"@,
        PlacementMode::AbsoluteSymlink => "absolute_symlink"@,
        PlacementMode::Hardlink => "hardlink"@,
        PlacementMode::Copy => "copy"@,
        PlacementMode::Reflink => "reflink"@,
    }
}

/// The name of the kind of operation that places a work.
pub open spec fn kind_name(kind: PlacementKind) -> Seq<char> {
    match kind {
        PlacementKind::Symlink => "symlink"@,
        PlacementKind::Hardlink => "hardlink"@,
        PlacementKind::Copy => "copy"@,
        PlacementKind::Reflink => "reflink"@,
    }
}

/// Whether `s` ends with `t`.
pub open spec fn ends_with(s: Seq<char>, t: Seq<char>) -> bool {
    t.len() <= s.len() && s.skip(s.len() - t.len()) == t
}

/// A work is placed by the operation its mode is named after: the mode's
/// name ends with the operation's kind (a relative or absolute symlink is a
/// symlink, a hardlink a hardlink, a copy a copy, a reflink a reflink). Only
/// `in_place` places nothing; every mode but the relative symlink places the
/// canonical source itself and is never refused.
pub proof fn law_placement_kind_follows_the_mode(
    mode: PlacementMode,
    canonical_source: Seq<ComponentView>,
    target_directory: Option<Seq<ComponentView>>,
)
    ensures
        (placement_spec(mode, canonical_source, target_directory) is None) <==> mode == PlacementMode::InPlace,
        placement_spec(mode, canonical_source, target_directory) matches Some(Ok((kind, _))) ==> ends_with(
            mode_name(mode),
            kind_name(kind),
        ),
        mode != PlacementMode::InPlace && mode != PlacementMode::RelativeSymlink ==> (placement_spec(
            mode,
            canonical_source,
            target_directory,
        ) matches Some(Ok((_, from))) && from == canonical_source),
{
    reveal_strlit("relative_symlink");
    reveal_strlit("absolute_symlink");
    reveal_strlit("symlink");
    reveal_strlit("hardlink");
    reveal_strlit("copy");
    reveal_strlit("reflink");
    assert("relative_symlink"@.skip(9) =~= "symlink"@);
    assert("absolute_symlink"@.skip(9) =~= "symlink"@);
    assert("hardlink"@.skip(0) =~= "hardlink"@);
    assert("copy"@.skip(0) =~= "copy"@);
    assert("reflink"@.skip(0) =~= "reflink"@);
}

} // verus!
