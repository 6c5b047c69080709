//! Decisions of the folder supervisor: which filesystem events matter, how a
//! discovered source is fingerprinted, and when a changing source has been
//! still long enough to be processed.
use vstd::prelude::*;

use crate::ingestion_model::RuleStatus;
use crate::job_model::JobMediaKind;
use crate::paths::{Component, ComponentView, components_spec, extension, extension_spec, file_name, file_name_spec};
use crate::text::{ascii_lower_spec, ascii_lowercase, chars_of, str_equal};

verus! {

broadcast use vstd::string::group_string_axioms;

/// Why the supervisor could not reconcile a rule.
#[derive(Debug, Clone, PartialEq, Eq)]
pub enum SupervisorError {
    Discovery(String),
    Store(String),
    Runtime(String),
    Model(String),
    Io(String),
    Join,
    EscapedSourceRoot,
    InvalidModifiedTime,
    MissingMediaKind,
}

/// Editors and downloads write through temporary files: `*.tmp`, `*.part`
/// (in any case), the supervisor's own `.fixer-*` files, and backups ending
/// in `~`.
pub open spec fn temporary_path_spec(path: Seq<char>) -> bool {
    let name = file_name_spec(components_spec(path));
    let ext = match name {
        Some(n) => extension_spec(n),
        None => None,
    };
    (ext is Some && (ascii_lower_spec(ext->Some_0) == "tmp"@ || ascii_lower_spec(ext->Some_0)
        == "part"@)) || (name is Some && ((name->Some_0.len() >= 7 && name->Some_0.take(7)
        == ".fixer-"@) || (name->Some_0.len() > 0 && name->Some_0.last() == '~')))
}

fn has_fixer_prefix(name: &str) -> (prefixed: bool)
    ensures
        prefixed == (name@.len() >= 7 && name@.take(7) == ".fixer-"@),
{
    let chars = chars_of(name);
    let prefix = chars_of(".fixer-");
    proof {
        reveal_strlit(".fixer-");
    }
    if chars.len() < prefix.len() {
        return false;
    }
    let mut i: usize = 0;
    while i < prefix.len()
        invariant
            chars@ == name@,
            prefix@ == ".fixer-"@,
            ".fixer-"@.len() == 7,
            prefix@.len() <= chars@.len(),
            i <= prefix@.len(),
            forall|j: int| 0 <= j < i ==> chars@[j] == prefix@[j],
        decreases prefix@.len() - i,
    {
        if chars[i] != prefix[i] {
            assert(name@.take(7)[i as int] != ".fixer-"@[i as int]);
            return false;
        }
        i += 1;
    }
    assert(name@.take(7) =~= ".fixer-"@);
    true
}

/// Whether a changed path is a temporary file whose events are ignored.
pub fn is_temporary_path(path: &str) -> (temporary: bool)
    ensures
        temporary == temporary_path_spec(path@),
{
    let parts = crate::paths::components(path);
    let name = file_name(&parts);
    let temporary_extension = match &name {
        Some(n) => match extension(n.as_str()) {
            Some(ext) => {
                let lower = ascii_lowercase(ext.as_str());
                str_equal(lower.as_str(), "tmp") || str_equal(lower.as_str(), "part")
            },
            None => false,
        },
        None => false,
    };
    if temporary_extension {
        return true;
    }
    match &name {
        Some(n) => {
            let chars = chars_of(n.as_str());
            has_fixer_prefix(n.as_str()) || (chars.len() > 0 && chars[chars.len() - 1] == '~')
        },
        None => false,
    }
}

/// A modification time in milliseconds since the epoch, given the time since
/// the epoch (`None` when the file claims to be older).
pub fn system_time_ms(millis: Option<u128>) -> (result: Result<i64, SupervisorError>)
    ensures
        match millis {
            Some(m) => if m <= i64::MAX {
                result == Ok::<i64, SupervisorError>(m as i64)
            } else {
                result == Err::<i64, SupervisorError>(SupervisorError::InvalidModifiedTime)
            },
            None => result == Err::<i64, SupervisorError>(SupervisorError::InvalidModifiedTime),
        },
{
    match millis {
        Some(m) => if m <= 9223372036854775807u128 {
            Ok(m as i64)
        } else {
            Err(SupervisorError::InvalidModifiedTime)
        },
        None => Err(SupervisorError::InvalidModifiedTime),
    }
}

/// One filesystem entry met while fingerprinting a source: whether it counts
/// toward the size (files and links do, directories do not), its length and
/// its modification time.
pub type EntryFacts = (bool, u64, i64);

/// The size of a source: the lengths of its files and links, saturating.
pub open spec fn signature_size(entries: Seq<EntryFacts>) -> u64
    decreases entries.len(),
{
    if entries.len() == 0 {
        0
    } else {
        let rest = signature_size(entries.drop_last());
        let e = entries.last();
        if e.0 {
            if rest + e.1 > u64::MAX {
                u64::MAX
            } else {
                (rest + e.1) as u64
            }
        } else {
            rest
        }
    }
}

/// The modification time of a source: the latest of its entries, and never
/// before the epoch.
pub open spec fn signature_time(entries: Seq<EntryFacts>) -> i64
    decreases entries.len(),
{
    if entries.len() == 0 {
        0
    } else {
        let rest = signature_time(entries.drop_last());
        if entries.last().2 > rest {
            entries.last().2
        } else {
            rest
        }
    }
}

/// The size and modification time that fingerprint a source, from the facts
/// of every entry beneath it.
pub fn path_signature(entries: &Vec<EntryFacts>) -> (signature: (u64, i64))
    ensures
        signature == (signature_size(entries@), signature_time(entries@)),
{
    let mut size: u64 = 0;
    let mut modified: i64 = 0;
    let mut i: usize = 0;
    assert(entries@.take(0) =~= Seq::<EntryFacts>::empty());
    while i < entries.len()
        invariant
            i <= entries@.len(),
            size == signature_size(entries@.take(i as int)),
            modified == signature_time(entries@.take(i as int)),
        decreases entries@.len() - i,
    {
        let (counted, length, time) = entries[i];
        assert(entries@.take(i + 1).drop_last() =~= entries@.take(i as int));
        if time > modified {
            modified = time;
        }
        if counted {
            size = size.saturating_add(length);
        }
        i += 1;
    }
    assert(entries@.take(i as int) =~= entries@);
    (size, modified)
}

/// The text of the normal components of a path joined with `/`.
pub open spec fn joined_components(parts: Seq<ComponentView>) -> Seq<char>
    decreases parts.len(),
{
    if parts.len() == 0 {
        seq![]
    } else if parts.len() == 1 {
        crate::paths::component_text(parts[0])
    } else {
        joined_components(parts.drop_last()) + "/"@ + crate::paths::component_text(parts.last())
    }
}

/// The path of a discovered item relative to its rule's source directory, as
/// the fingerprint records it: `.` for the directory itself.
pub open spec fn relative_source_spec(source: Seq<ComponentView>, item: Seq<ComponentView>) -> Option<
    Seq<char>,
> {
    if crate::paths::starts_with_spec(item, source) {
        if item.len() == source.len() {
            Some("."@)
        } else {
            Some(joined_components(item.skip(source.len() as int)))
        }
    } else {
        None
    }
}

/// The relative path of an item beneath its source directory; an item outside
/// it escaped the directory.
pub fn relative_source_path(source: &Vec<Component>, item: &Vec<Component>) -> (result: Result<
    String,
    SupervisorError,
>)
    ensures
        match relative_source_spec(source.deep_view(), item.deep_view()) {
            Some(p) => result is Ok && result->Ok_0@ == p,
            None => result == Err::<String, SupervisorError>(SupervisorError::EscapedSourceRoot),
        },
{
    if !crate::paths::starts_with(item, source) {
        return Err(SupervisorError::EscapedSourceRoot);
    }
    if item.len() == source.len() {
        return Ok(".".to_owned());
    }
    let ghost rest = item.deep_view().skip(source.len() as int);
    let mut text = String::new();
    let mut i: usize = source.len();
    assert(rest.take(0) =~= Seq::<ComponentView>::empty());
    while i < item.len()
        invariant
            source@.len() < item@.len(),
            source@.len() <= i <= item@.len(),
            rest == item.deep_view().skip(source@.len() as int),
            text@ == joined_components(rest.take(i - source@.len())),
        decreases item@.len() - i,
    {
        let piece = crate::paths::component_text_exec(&item[i]);
        let ghost k = i - source@.len();
        assert(rest.take(k + 1).drop_last() =~= rest.take(k));
        assert(rest[k] == item.deep_view()[i as int]);
        if i > source.len() {
            let with_slash = crate::text::concat_str(text.as_str(), "/");
            text = crate::text::concat_str(with_slash.as_str(), piece.as_str());
        } else {
            assert(rest.take(1) =~= seq![rest[0]]);
            text = piece;
        }
        i += 1;
    }
    assert(rest.take(i - source@.len()) =~= rest);
    Ok(text)
}

/// What the supervisor does with a stable discovered item.
#[derive(Debug, Clone, PartialEq, Eq)]
pub enum ItemAction {
    /// Nothing recognizable: the source is paused.
    Pause,
    /// Several media kinds matched: the source waits for a choice.
    Review(Vec<JobMediaKind>),
    /// A job already exists for the source: it is processing.
    MarkProcessing,
    /// A job of this kind is created for the source.
    CreateJob(JobMediaKind),
}

/// The action for a stable item, given its outcome (ignored, needing review
/// among kinds, or ready with a kind) and whether its source has a job.
pub fn item_action(
    ignored: bool,
    review_kinds: Option<Vec<JobMediaKind>>,
    ready_kind: Option<JobMediaKind>,
    has_job: bool,
) -> (action: Result<ItemAction, SupervisorError>)
    ensures
        ignored ==> action == Ok::<ItemAction, SupervisorError>(ItemAction::Pause),
        !ignored && review_kinds is Some ==> action is Ok && action->Ok_0 is Review
            && action->Ok_0->Review_0@ == review_kinds->Some_0@,
        !ignored && review_kinds is None && has_job ==> action == Ok::<ItemAction, SupervisorError>(
            ItemAction::MarkProcessing,
        ),
        !ignored && review_kinds is None && !has_job ==> match ready_kind {
            Some(k) => action == Ok::<ItemAction, SupervisorError>(ItemAction::CreateJob(k)),
            None => action == Err::<ItemAction, SupervisorError>(SupervisorError::MissingMediaKind),
        },
{
    if ignored {
        return Ok(ItemAction::Pause);
    }
    match review_kinds {
        Some(kinds) => Ok(ItemAction::Review(kinds)),
        None => if has_job {
            Ok(ItemAction::MarkProcessing)
        } else {
            match ready_kind {
                Some(k) => Ok(ItemAction::CreateJob(k)),
                None => Err(SupervisorError::MissingMediaKind),
            }
        },
    }
}

/// The status a failed job creation leaves on its source.
pub fn failed_creation_status() -> (status: RuleStatus)
    ensures
        status == RuleStatus::Error,
{
    RuleStatus::Error
}

/// A fingerprint as plain values: relative path, size and modification time.
pub type FingerprintView = (Seq<char>, u64, i64);

/// One observed source of a rule: its fingerprint and when that fingerprint
/// was first seen, in nanoseconds of a monotonic clock.
#[derive(Debug)]
pub struct Observation {
    pub rule_id: i64,
    pub source_root: String,
    pub path: String,
    pub size: u64,
    pub modified: i64,
    pub first_seen: u128,
}

pub type ObservationView = (i64, Seq<char>, FingerprintView, u128);

impl Observation {
    pub open spec fn view_obs(&self) -> ObservationView {
        (self.rule_id, self.source_root@, (self.path@, self.size, self.modified), self.first_seen)
    }
}

/// The fingerprint and first sighting recorded for a source, if any: the
/// first entry with its key.
pub open spec fn lookup(entries: Seq<ObservationView>, rule_id: i64, root: Seq<char>) -> Option<
    (FingerprintView, u128),
>
    decreases entries.len(),
{
    if entries.len() == 0 {
        None
    } else if entries[0].0 == rule_id && entries[0].1 == root {
        Some((entries[0].2, entries[0].3))
    } else {
        lookup(entries.drop_first(), rule_id, root)
    }
}

/// When each discovered source was first seen with its current fingerprint.
pub struct ObservationTable {
    entries: Vec<Observation>,
}

proof fn lemma_lookup_update(entries: Seq<ObservationView>, i: int, v: ObservationView, rule_id: i64, root: Seq<char>)
    requires
        0 <= i < entries.len(),
        entries[i].0 == v.0 && entries[i].1 == v.1,
        forall|j: int| 0 <= j < i ==> !(entries[j].0 == v.0 && entries[j].1 == v.1),
    ensures
        lookup(entries.update(i, v), rule_id, root) == if rule_id == v.0 && root == v.1 {
            Some((v.2, v.3))
        } else {
            lookup(entries, rule_id, root)
        },
    decreases entries.len(),
{
    if i > 0 {
        assert(!(entries[0].0 == v.0 && entries[0].1 == v.1));
        assert forall|j: int| 0 <= j < i - 1 implies !(entries.drop_first()[j].0 == v.0
            && entries.drop_first()[j].1 == v.1) by {
            assert(entries.drop_first()[j] == entries[j + 1]);
        }
        lemma_lookup_update(entries.drop_first(), i - 1, v, rule_id, root);
        assert(entries.update(i, v).drop_first() =~= entries.drop_first().update(i - 1, v));
        assert(entries.update(i, v)[0] == entries[0]);
    } else {
        assert(entries.update(i, v).drop_first() =~= entries.drop_first());
        assert(entries.update(i, v)[0] == v);
    }
}

proof fn lemma_lookup_push(entries: Seq<ObservationView>, v: ObservationView, rule_id: i64, root: Seq<char>)
    requires
        lookup(entries, v.0, v.1) is None,
    ensures
        lookup(entries.push(v), rule_id, root) == if rule_id == v.0 && root == v.1 {
            Some((v.2, v.3))
        } else {
            lookup(entries, rule_id, root)
        },
    decreases entries.len(),
{
    if entries.len() > 0 {
        assert(!(entries[0].0 == v.0 && entries[0].1 == v.1));
        lemma_lookup_push(entries.drop_first(), v, rule_id, root);
        assert(entries.push(v).drop_first() =~= entries.drop_first().push(v));
        assert(entries.push(v)[0] == entries[0]);
    } else {
        assert(entries.push(v).drop_first() =~= Seq::<ObservationView>::empty());
        assert(entries.push(v)[0] == v);
        assert(lookup(Seq::<ObservationView>::empty(), rule_id, root) is None);
    }
}

proof fn lemma_lookup_first(entries: Seq<ObservationView>, i: int)
    requires
        0 <= i < entries.len(),
        forall|j: int| 0 <= j < i ==> !(entries[j].0 == entries[i].0 && entries[j].1 == entries[i].1),
    ensures
        lookup(entries, entries[i].0, entries[i].1) == Some((entries[i].2, entries[i].3)),
    decreases i,
{
    if i > 0 {
        lemma_lookup_first(entries.drop_first(), i - 1);
    }
}

proof fn lemma_lookup_absent(entries: Seq<ObservationView>, rule_id: i64, root: Seq<char>)
    requires
        forall|j: int| 0 <= j < entries.len() ==> !(entries[j].0 == rule_id && entries[j].1 == root),
    ensures
        lookup(entries, rule_id, root) is None,
    decreases entries.len(),
{
    if entries.len() > 0 {
        lemma_lookup_absent(entries.drop_first(), rule_id, root);
    }
}

proof fn lemma_lookup_append(entries: Seq<ObservationView>, v: ObservationView, rule_id: i64, root: Seq<char>)
    ensures
        lookup(entries.push(v), rule_id, root) == match lookup(entries, rule_id, root) {
            Some(found) => Some(found),
            None => if v.0 == rule_id && v.1 == root {
                Some((v.2, v.3))
            } else {
                None
            },
        },
    decreases entries.len(),
{
    if entries.len() > 0 {
        lemma_lookup_append(entries.drop_first(), v, rule_id, root);
        assert(entries.push(v).drop_first() =~= entries.drop_first().push(v));
        assert(entries.push(v)[0] == entries[0]);
    } else {
        assert(entries.push(v).drop_first() =~= Seq::<ObservationView>::empty());
        assert(entries.push(v)[0] == v);
        assert(lookup(Seq::<ObservationView>::empty(), rule_id, root) is None);
        assert(lookup(entries, rule_id, root) is None);
    }
}

/// The views of a list of observations.
pub open spec fn obs_view(entries: Seq<Observation>) -> Seq<ObservationView> {
    entries.map_values(|o: Observation| o.view_obs())
}

/// Whether an entry survives a pass over `rule_id` that saw `seen`.
pub open spec fn survives(rule_id: i64, seen: Seq<Seq<char>>, r: i64, s: Seq<char>) -> bool {
    r != rule_id || seen.contains(s)
}

impl ObservationTable {
    pub closed spec fn entries_view(&self) -> Seq<ObservationView> {
        obs_view(self.entries@)
    }

    /// What the table records for a source.
    pub open spec fn recorded(&self, rule_id: i64, root: Seq<char>) -> Option<(FingerprintView, u128)> {
        lookup(self.entries_view(), rule_id, root)
    }

    pub fn new() -> (table: Self)
        ensures
            forall|r: i64, s: Seq<char>| table.recorded(r, s) is None,
    {
        let table = ObservationTable { entries: Vec::new() };
        assert(table.entries_view() =~= Seq::<ObservationView>::empty());
        table
    }

    /// Records a sighting of a source at `now` and says whether it is stable:
    /// seen with the same fingerprint at least `debounce` nanoseconds ago. A
    /// new or changed fingerprint restarts the wait.
    pub fn observe(
        &mut self,
        rule_id: i64,
        source_root: &str,
        path: &str,
        size: u64,
        modified: i64,
        now: u128,
        debounce: u128,
    ) -> (stable: bool)
        ensures
            ({
                let before = old(self).recorded(rule_id, source_root@);
                let fp = (path@, size, modified);
                &&& (before is Some && before->Some_0.0 == fp) ==> {
                    &&& stable == (now >= before->Some_0.1 && now - before->Some_0.1 >= debounce)
                    &&& forall|r: i64, s: Seq<char>| final(self).recorded(r, s) == old(self).recorded(r, s)
                }
                &&& !(before is Some && before->Some_0.0 == fp) ==> {
                    &&& !stable
                    &&& forall|r: i64, s: Seq<char>| final(self).recorded(r, s) == if r == rule_id && s == source_root@ {
                        Some((fp, now))
                    } else {
                        old(self).recorded(r, s)
                    }
                }
            }),
    {
        let ghost all = self.entries_view();
        let mut i: usize = 0;
        while i < self.entries.len()
            invariant
                all == self.entries_view(),
                all == old(self).entries_view(),
                i <= all.len(),
                forall|j: int| 0 <= j < i ==> !(#[trigger] all[j].0 == rule_id && all[j].1 == source_root@),
            decreases all.len() - i,
        {
            assert(all[i as int] == self.entries@[i as int].view_obs());
            if self.entries[i].rule_id == rule_id && str_equal(self.entries[i].source_root.as_str(), source_root) {
                proof {
                    lemma_lookup_first(all, i as int);
                }
                let same = str_equal(self.entries[i].path.as_str(), path) && self.entries[i].size == size
                    && self.entries[i].modified == modified;
                if same {
                    let first = self.entries[i].first_seen;
                    return now >= first && now - first >= debounce;
                }
                let updated = Observation {
                    rule_id,
                    source_root: source_root.to_owned(),
                    path: path.to_owned(),
                    size,
                    modified,
                    first_seen: now,
                };
                let ghost v = updated.view_obs();
                self.entries.set(i, updated);
                proof {
                    assert(self.entries_view() =~= all.update(i as int, v));
                    assert forall|r: i64, s: Seq<char>| #[trigger] lookup(all.update(i as int, v), r, s) == if r == rule_id && s == source_root@ {
                        Some((v.2, v.3))
                    } else {
                        lookup(all, r, s)
                    } by {
                        lemma_lookup_update(all, i as int, v, r, s);
                    }
                }
                return false;
            }
            i += 1;
        }
        proof {
            lemma_lookup_absent(all, rule_id, source_root@);
        }
        let added = Observation {
            rule_id,
            source_root: source_root.to_owned(),
            path: path.to_owned(),
            size,
            modified,
            first_seen: now,
        };
        let ghost v = added.view_obs();
        self.entries.push(added);
        proof {
            assert(self.entries_view() =~= all.push(v));
            assert forall|r: i64, s: Seq<char>| #[trigger] lookup(all.push(v), r, s) == if r == rule_id && s == source_root@ {
                Some((v.2, v.3))
            } else {
                lookup(all, r, s)
            } by {
                lemma_lookup_push(all, v, r, s);
            }
        }
        false
    }

    /// Forgets the sources of `rule_id` that the last pass did not see; other
    /// rules' sources are kept.
    pub fn forget_unseen(&mut self, rule_id: i64, seen: &Vec<String>)
        ensures
            forall|r: i64, s: Seq<char>| #[trigger] final(self).recorded(r, s) == if survives(
                rule_id,
                seen@.map_values(|t: String| t@),
                r,
                s,
            ) {
                old(self).recorded(r, s)
            } else {
                None
            },
    {
        let ghost all = self.entries_view();
        let ghost seen_view = seen@.map_values(|t: String| t@);
        let mut kept: Vec<Observation> = Vec::new();
        let mut entries: Vec<Observation> = Vec::new();
        std::mem::swap(&mut entries, &mut self.entries);
        assert(obs_view(entries@) == all);
        let mut i: usize = 0;
        while i < entries.len()
            invariant
                all == obs_view(entries@),
                i <= all.len(),
                seen_view == seen@.map_values(|t: String| t@),
                forall|r: i64, s: Seq<char>| #[trigger] lookup(obs_view(kept@), r, s)
                    == if survives(rule_id, seen_view, r, s) {
                    lookup(all.take(i as int), r, s)
                } else {
                    None
                },
            decreases all.len() - i,
        {
            let entry = &entries[i];
            assert(all[i as int] == entry.view_obs());
            let mut keep = entry.rule_id != rule_id;
            if !keep {
                let mut j: usize = 0;
                while j < seen.len()
                    invariant
                        j <= seen@.len(),
                        seen_view == seen@.map_values(|t: String| t@),
                        keep == exists|k: int| 0 <= k < j && seen_view[k] == entry.source_root@,
                    decreases seen@.len() - j,
                {
                    assert(seen_view[j as int] == seen@[j as int]@);
                    if str_equal(seen[j].as_str(), entry.source_root.as_str()) {
                        keep = true;
                    }
                    j += 1;
                }
                assert(keep == seen_view.contains(entry.source_root@));
            }
            assert(keep == survives(rule_id, seen_view, entry.rule_id, entry.source_root@));
            let ghost before = obs_view(kept@);
            proof {
                assert(all.take(i + 1) =~= all.take(i as int).push(all[i as int]));
            }
            if keep {
                let copy = Observation {
                    rule_id: entry.rule_id,
                    source_root: entry.source_root.clone(),
                    path: entry.path.clone(),
                    size: entry.size,
                    modified: entry.modified,
                    first_seen: entry.first_seen,
                };
                kept.push(copy);
                proof {
                    assert(obs_view(kept@) =~= before.push(all[i as int]));
                    assert forall|r: i64, s: Seq<char>| #[trigger] lookup(obs_view(kept@), r, s)
                        == if survives(rule_id, seen_view, r, s) {
                        lookup(all.take(i + 1), r, s)
                    } else {
                        None
                    } by {
                        lemma_lookup_append(before, all[i as int], r, s);
                        lemma_lookup_append(all.take(i as int), all[i as int], r, s);
                    }
                }
            } else {
                proof {
                    assert forall|r: i64, s: Seq<char>| #[trigger] lookup(obs_view(kept@), r, s)
                        == if survives(rule_id, seen_view, r, s) {
                        lookup(all.take(i + 1), r, s)
                    } else {
                        None
                    } by {
                        lemma_lookup_append(all.take(i as int), all[i as int], r, s);
                    }
                }
            }
            i += 1;
        }
        assert(all.take(i as int) =~= all);
        self.entries = kept;
    }
}

} // verus!