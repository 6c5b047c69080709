//! Turning the media claims of the local scanners into one discovered item
//! per source root, and matching filesystem events to those items.
use vstd::prelude::*;

use crate::fs_policy::{insert_sorted_unique, path_order, paths_view, strictly_ascending};
use crate::job_model::JobMediaKind;
use crate::paths::{Component, ComponentView, component_equal, starts_with, starts_with_spec};

verus! {

/// Why a source directory could not be discovered.
#[derive(Debug, Clone, PartialEq, Eq)]
pub enum DiscoveryError {
    Local(String),
    Io(String),
    MisalignedScannerOutput(JobMediaKind),
    EscapedSourceRoot,
}

/// The order in which media kinds are scanned and listed.
pub open spec fn kind_rank(kind: JobMediaKind) -> nat {
    match kind {
        JobMediaKind::Movie => 0,
        JobMediaKind::Television => 1,
        JobMediaKind::Anime => 2,
        JobMediaKind::Music => 3,
        JobMediaKind::Book => 4,
    }
}

/// The kind of each rank.
pub open spec fn kind_of_rank(rank: nat) -> JobMediaKind {
    if rank == 0 {
        JobMediaKind::Movie
    } else if rank == 1 {
        JobMediaKind::Television
    } else if rank == 2 {
        JobMediaKind::Anime
    } else if rank == 3 {
        JobMediaKind::Music
    } else {
        JobMediaKind::Book
    }
}

pub fn media_kind_rank(kind: JobMediaKind) -> (rank: u8)
    ensures
        rank == kind_rank(kind),
        kind_of_rank(rank as nat) == kind,
{
    match kind {
        JobMediaKind::Movie => 0,
        JobMediaKind::Television => 1,
        JobMediaKind::Anime => 2,
        JobMediaKind::Music => 3,
        JobMediaKind::Book => 4,
    }
}

/// The media kinds in scanning order.
pub fn ordered_media_kinds() -> (kinds: [JobMediaKind; 5])
    ensures
        forall|i: int| 0 <= i < 5 ==> #[trigger] kinds@[i] == kind_of_rank(i as nat),
{
    [
        JobMediaKind::Movie,
        JobMediaKind::Television,
        JobMediaKind::Anime,
        JobMediaKind::Music,
        JobMediaKind::Book,
    ]
}

/// Whether two component lists name the same path.
pub fn path_equal(a: &Vec<Component>, b: &Vec<Component>) -> (equal: bool)
    ensures
        equal == (a.deep_view() == b.deep_view()),
{
    if a.len() != b.len() {
        assert(a.deep_view().len() != b.deep_view().len());
        return false;
    }
    let mut i: usize = 0;
    while i < a.len()
        invariant
            a@.len() == b@.len(),
            i <= a@.len(),
            forall|j: int| 0 <= j < i ==> a.deep_view()[j] == b.deep_view()[j],
        decreases a@.len() - i,
    {
        assert(a.deep_view()[i as int] == a@[i as int]@);
        assert(b.deep_view()[i as int] == b@[i as int]@);
        if !component_equal(&a[i], &b[i]) {
            assert(a.deep_view()[i as int] != b.deep_view()[i as int]);
            return false;
        }
        i += 1;
    }
    assert(a.deep_view() =~= b.deep_view());
    true
}

/// A scanner's claim: the root of a work and its media kind.
pub type ClaimView = (Seq<ComponentView>, JobMediaKind);

pub open spec fn claims_view(claims: Seq<(Vec<Component>, JobMediaKind)>) -> Seq<ClaimView> {
    claims.map_values(|c: (Vec<Component>, JobMediaKind)| (c.0.deep_view(), c.1))
}

/// The first claim of `kind` for `root`, by position.
pub open spec fn first_claim(claims: Seq<ClaimView>, root: Seq<ComponentView>, kind: JobMediaKind) -> Option<int>
    decreases claims.len(),
{
    if claims.len() == 0 {
        None
    } else if claims[0].0 == root && claims[0].1 == kind {
        Some(0)
    } else {
        match first_claim(claims.drop_first(), root, kind) {
            Some(i) => Some(i + 1),
            None => None,
        }
    }
}

/// The kinds claimed for `root`, in scanning order, from rank `from` on.
pub open spec fn kinds_from(claims: Seq<ClaimView>, root: Seq<ComponentView>, from: nat) -> Seq<JobMediaKind>
    decreases 5 - from,
{
    if from >= 5 {
        seq![]
    } else {
        let rest = kinds_from(claims, root, from + 1);
        if first_claim(claims, root, kind_of_rank(from)) is Some {
            seq![kind_of_rank(from)] + rest
        } else {
            rest
        }
    }
}

/// The kinds claimed for `root`, in scanning order.
pub open spec fn claimed_kinds(claims: Seq<ClaimView>, root: Seq<ComponentView>) -> Seq<JobMediaKind> {
    kinds_from(claims, root, 0)
}

/// What became of a discovered source root.
#[derive(Debug, Clone, PartialEq, Eq)]
pub enum DiscoveryOutcome {
    /// One media kind claimed it; the claim at this position carries its document.
    Ready(usize),
    /// Several media kinds claimed it, listed in scanning order.
    NeedsReview(Vec<JobMediaKind>),
    /// Nothing claimed this entry of the source directory.
    Ignored,
}

/// One source root and what became of it.
#[derive(Debug)]
pub struct DiscoveredItem {
    pub source_root: Vec<Component>,
    pub outcome: DiscoveryOutcome,
}

/// The outcome owed to a root: ready with its single kind's first claim, or
/// needing review among its kinds; ignored when nothing claimed it.
pub open spec fn outcome_spec(claims: Seq<ClaimView>, root: Seq<ComponentView>, outcome: DiscoveryOutcome) -> bool {
    let kinds = claimed_kinds(claims, root);
    if kinds.len() == 0 {
        outcome == DiscoveryOutcome::Ignored
    } else if kinds.len() == 1 {
        outcome is Ready && Some(outcome->Ready_0 as int) == first_claim(claims, root, kinds[0])
    } else {
        outcome is NeedsReview && outcome->NeedsReview_0@ == kinds
    }
}

/// An entry of the source directory that no claimed root equals, lies inside
/// or contains.
pub open spec fn unclaimed(claims: Seq<ClaimView>, entry: Seq<ComponentView>) -> bool {
    forall|i: int| 0 <= i < claims.len() ==> !(#[trigger] claims[i].0 == entry || starts_with_spec(claims[i].0, entry)
        || starts_with_spec(entry, claims[i].0))
}

/// The roots discovered: every claimed root, and, unless the source itself
/// was claimed, every unclaimed directory entry.
pub open spec fn discovered_roots(
    source: Seq<ComponentView>,
    claims: Seq<ClaimView>,
    entries: Seq<Seq<ComponentView>>,
) -> Set<Seq<ComponentView>> {
    let claimed = claims.map_values(|c: ClaimView| c.0).to_set();
    let source_claimed = claimed.contains(source);
    claimed.union(
        entries.to_set().filter(|e: Seq<ComponentView>| !source_claimed && unclaimed(claims, e)),
    )
}

fn kind_claimed_first(claims: &Vec<(Vec<Component>, JobMediaKind)>, root: &Vec<Component>, kind: JobMediaKind) -> (first: Option<usize>)
    ensures
        match first {
            Some(i) => first_claim(claims_view(claims@), root.deep_view(), kind) == Some(i as int),
            None => first_claim(claims_view(claims@), root.deep_view(), kind) is None,
        },
{
    let ghost all = claims_view(claims@);
    let mut i: usize = 0;
    assert(all.skip(0) =~= all);
    while i < claims.len()
        invariant
            all == claims_view(claims@),
            i <= all.len(),
            first_claim(all, root.deep_view(), kind) == match first_claim(all.skip(i as int), root.deep_view(), kind) {
                Some(j) => Some(j + i),
                None => None,
            },
        decreases all.len() - i,
    {
        assert(all.skip(i as int)[0] == all[i as int]);
        assert(all.skip(i as int).drop_first() =~= all.skip(i + 1));
        if path_equal(&claims[i].0, root) && claims[i].1 == kind {
            return Some(i);
        }
        i += 1;
    }
    assert(all.skip(i as int) =~= Seq::<ClaimView>::empty());
    None
}

fn outcome_for(claims: &Vec<(Vec<Component>, JobMediaKind)>, root: &Vec<Component>) -> (outcome: DiscoveryOutcome)
    ensures
        outcome_spec(claims_view(claims@), root.deep_view(), outcome),
{
    let ghost all = claims_view(claims@);
    let kinds = ordered_media_kinds();
    let mut found: Vec<JobMediaKind> = Vec::new();
    let mut firsts: Vec<usize> = Vec::new();
    let mut r: usize = 5;
    while r > 0
        invariant
            all == claims_view(claims@),
            r <= 5,
            forall|i: int| 0 <= i < 5 ==> #[trigger] kinds@[i] == kind_of_rank(i as nat),
            found@.reverse() == kinds_from(all, root.deep_view(), r as nat),
            firsts@.len() == found@.len(),
            forall|i: int| 0 <= i < found@.len() ==> first_claim(all, root.deep_view(), #[trigger] found@[i]) == Some(firsts@[i] as int),
        decreases r,
    {
        r -= 1;
        let kind = kinds[r];
        match kind_claimed_first(claims, root, kind) {
            Some(i) => {
                found.push(kind);
                firsts.push(i);
                assert(found@.reverse() =~= seq![kind] + found@.drop_last().reverse());
            },
            None => {},
        }
    }
    if found.len() == 0 {
        return DiscoveryOutcome::Ignored;
    }
    if found.len() == 1 {
        assert(found@.reverse()[0] == found@[0]);
        return DiscoveryOutcome::Ready(firsts[0]);
    }
    let mut ordered: Vec<JobMediaKind> = Vec::new();
    let mut k: usize = found.len();
    while k > 0
        invariant
            k <= found@.len(),
            ordered@ == found@.reverse().take((found@.len() - k) as int),
        decreases k,
    {
        k -= 1;
        ordered.push(found[k]);
        assert(found@.reverse().take((found@.len() - k) as int) =~= found@.reverse().take(
            (found@.len() - k - 1) as int,
        ).push(found@[k as int]));
    }
    assert(ordered@ =~= found@.reverse());
    DiscoveryOutcome::NeedsReview(ordered)
}

fn claimed_by_any(claims: &Vec<(Vec<Component>, JobMediaKind)>, entry: &Vec<Component>) -> (claimed: bool)
    ensures
        claimed == !unclaimed(claims_view(claims@), entry.deep_view()),
{
    let ghost all = claims_view(claims@);
    let mut i: usize = 0;
    while i < claims.len()
        invariant
            all == claims_view(claims@),
            i <= all.len(),
            forall|j: int| 0 <= j < i ==> !(#[trigger] all[j].0 == entry.deep_view() || starts_with_spec(all[j].0, entry.deep_view())
                || starts_with_spec(entry.deep_view(), all[j].0)),
        decreases all.len() - i,
    {
        let root = &claims[i].0;
        assert(all[i as int].0 == root.deep_view());
        if path_equal(root, entry) || starts_with(root, entry) || starts_with(entry, root) {
            return true;
        }
        i += 1;
    }
    false
}

/// Builds the discovered items of a source directory from the scanners'
/// claims (each a root already made canonical, and a kind) and the canonical
/// entries of the directory. Items come in ascending path order, one per
/// root; a claimed root outside the source directory is refused.
pub fn discover_items(
    source: &Vec<Component>,
    claims: &Vec<(Vec<Component>, JobMediaKind)>,
    entries: &Vec<Vec<Component>>,
) -> (result: Result<Vec<DiscoveredItem>, DiscoveryError>)
    ensures
        match result {
            Err(e) => e == DiscoveryError::EscapedSourceRoot && exists|i: int|
                0 <= i < claims@.len() && !starts_with_spec(#[trigger] claims_view(claims@)[i].0, source.deep_view()),
            Ok(items) => {
                &&& forall|i: int| 0 <= i < claims@.len() ==> starts_with_spec(#[trigger] claims_view(claims@)[i].0, source.deep_view())
                &&& strictly_ascending(items@.map_values(|it: DiscoveredItem| it.source_root.deep_view()))
                &&& items@.map_values(|it: DiscoveredItem| it.source_root.deep_view()).to_set()
                    == discovered_roots(source.deep_view(), claims_view(claims@), entries.deep_view())
                &&& forall|i: int| 0 <= i < items@.len() ==> outcome_spec(
                    claims_view(claims@),
                    #[trigger] items@[i].source_root.deep_view(),
                    items@[i].outcome,
                )
            },
        },
{
    let ghost all = claims_view(claims@);
    let mut roots: Vec<Vec<Component>> = Vec::new();
    let mut source_claimed = false;
    let mut i: usize = 0;
    assert(paths_view(roots@) =~= Seq::<Seq<ComponentView>>::empty());
    assert(all.take(0).map_values(|c: ClaimView| c.0) =~= Seq::<Seq<ComponentView>>::empty());
    while i < claims.len()
        invariant
            all == claims_view(claims@),
            i <= all.len(),
            forall|j: int| 0 <= j < i ==> starts_with_spec(#[trigger] all[j].0, source.deep_view()),
            strictly_ascending(paths_view(roots@)),
            paths_view(roots@).no_duplicates(),
            paths_view(roots@).to_set() == all.take(i as int).map_values(|c: ClaimView| c.0).to_set(),
            source_claimed == all.take(i as int).map_values(|c: ClaimView| c.0).to_set().contains(source.deep_view()),
        decreases all.len() - i,
    {
        let root = &claims[i].0;
        assert(all[i as int].0 == root.deep_view());
        if !starts_with(root, source) {
            return Err(DiscoveryError::EscapedSourceRoot);
        }
        insert_sorted_unique(&mut roots, root);
        if path_equal(root, source) {
            source_claimed = true;
        }
        proof {
            let prefix = all.take(i as int).map_values(|c: ClaimView| c.0);
            assert(all.take(i + 1).map_values(|c: ClaimView| c.0) =~= prefix.push(root.deep_view()));
            prefix.lemma_push_to_set_commute(root.deep_view());
        }
        i += 1;
    }
    assert(all.take(i as int) =~= all);
    let ghost claimed = all.map_values(|c: ClaimView| c.0).to_set();
    let ghost with_entries = if source_claimed {
        Set::<Seq<ComponentView>>::empty()
    } else {
        entries.deep_view().to_set().filter(|e: Seq<ComponentView>| unclaimed(all, e))
    };
    if !source_claimed {
        let mut k: usize = 0;
        assert(entries.deep_view().take(0).to_set() =~= Set::<Seq<ComponentView>>::empty());
        while k < entries.len()
            invariant
                all == claims_view(claims@),
                !source_claimed,
                k <= entries@.len(),
                strictly_ascending(paths_view(roots@)),
                paths_view(roots@).no_duplicates(),
                paths_view(roots@).to_set() == claimed.union(
                    entries.deep_view().take(k as int).to_set().filter(|e: Seq<ComponentView>| unclaimed(all, e)),
                ),
            decreases entries@.len() - k,
        {
            let entry = &entries[k];
            assert(entries.deep_view()[k as int] == entry.deep_view());
            let ghost before = entries.deep_view().take(k as int).to_set().filter(|e: Seq<ComponentView>| unclaimed(all, e));
            let ghost after = entries.deep_view().take(k + 1).to_set().filter(|e: Seq<ComponentView>| unclaimed(all, e));
            proof {
                assert(entries.deep_view().take(k + 1) =~= entries.deep_view().take(k as int).push(entry.deep_view()));
                entries.deep_view().take(k as int).lemma_push_to_set_commute(entry.deep_view());
            }
            if !claimed_by_any(claims, entry) {
                insert_sorted_unique(&mut roots, entry);
                assert(after =~= before.insert(entry.deep_view()));
            } else {
                assert(after =~= before);
            }
            k += 1;
        }
        assert(entries.deep_view().take(k as int) =~= entries.deep_view());
    } else {
        assert(claimed.union(with_entries) =~= claimed);
    }
    proof {
        assert(paths_view(roots@).to_set() =~= discovered_roots(source.deep_view(), all, entries.deep_view()));
    }
    let mut items: Vec<DiscoveredItem> = Vec::new();
    let mut m: usize = 0;
    while m < roots.len()
        invariant
            all == claims_view(claims@),
            m <= roots@.len(),
            items@.len() == m,
            forall|j: int| 0 <= j < m ==> (#[trigger] items@[j]).source_root.deep_view() == paths_view(roots@)[j],
            forall|j: int| 0 <= j < m ==> outcome_spec(all, #[trigger] items@[j].source_root.deep_view(), items@[j].outcome),
        decreases roots@.len() - m,
    {
        let root = crate::fs_policy::clone_path(&roots[m]);
        assert(paths_view(roots@)[m as int] == roots@[m as int].deep_view());
        let outcome = outcome_for(claims, &root);
        items.push(DiscoveredItem { source_root: root, outcome });
        m += 1;
    }
    assert(items@.map_values(|it: DiscoveredItem| it.source_root.deep_view()) =~= paths_view(roots@));
    Ok(items)
}

/// The item a filesystem event belongs to: the deepest discovered root that
/// contains the changed path, the last of equally deep ones.
pub open spec fn reconciled(roots: Seq<Seq<ComponentView>>, changed: Seq<ComponentView>, k: int) -> bool {
    &&& 0 <= k < roots.len()
    &&& starts_with_spec(changed, roots[k])
    &&& forall|j: int| 0 <= j < roots.len() && starts_with_spec(changed, #[trigger] roots[j]) ==> roots[j].len() <= roots[k].len()
    &&& forall|j: int| k < j < roots.len() && starts_with_spec(changed, #[trigger] roots[j]) ==> roots[j].len() < roots[k].len()
}

pub fn reconcile_event(roots: &Vec<Vec<Component>>, changed: &Vec<Component>) -> (found: Option<usize>)
    ensures
        match found {
            Some(k) => reconciled(paths_view(roots@), changed.deep_view(), k as int),
            None => forall|j: int| 0 <= j < roots@.len() ==> !starts_with_spec(changed.deep_view(), #[trigger] paths_view(roots@)[j]),
        },
{
    let ghost all = paths_view(roots@);
    let mut best: Option<usize> = None;
    let mut depth: usize = 0;
    let mut i: usize = 0;
    while i < roots.len()
        invariant
            all == paths_view(roots@),
            i <= all.len(),
            match best {
                None => forall|j: int| 0 <= j < i ==> !starts_with_spec(changed.deep_view(), #[trigger] all[j]),
                Some(k) => {
                    &&& k < i
                    &&& starts_with_spec(changed.deep_view(), all[k as int])
                    &&& depth == all[k as int].len()
                    &&& forall|j: int| 0 <= j < i && starts_with_spec(changed.deep_view(), #[trigger] all[j]) ==> all[j].len() <= depth
                    &&& forall|j: int| k < j < i && starts_with_spec(changed.deep_view(), #[trigger] all[j]) ==> all[j].len() < depth
                },
            },
        decreases all.len() - i,
    {
        assert(all[i as int] == roots@[i as int].deep_view());
        if starts_with(changed, &roots[i]) {
            let d = roots[i].len();
            let take = match best {
                None => true,
                Some(_) => d >= depth,
            };
            if take {
                best = Some(i);
                depth = d;
            }
        }
        i += 1;
    }
    best
}

} // verus!
