//! The media roots under which the server may read and write, and the check
//! that a canonical path lies under one of them.
use vstd::prelude::*;

use crate::paths::{Component, ComponentView, render, render_spec, starts_with, starts_with_spec};
use crate::text::chars_of;

verus! {

/// Three-way comparison of character sequences, character by character; since
/// UTF-8 preserves code point order this is also the byte order `OsStr` uses.
pub open spec fn chars_order(a: Seq<char>, b: Seq<char>) -> int
    decreases a.len(),
{
    if a.len() == 0 && b.len() == 0 {
        0
    } else if a.len() == 0 {
        -1
    } else if b.len() == 0 {
        1
    } else if a[0] < b[0] {
        -1
    } else if a[0] > b[0] {
        1
    } else {
        chars_order(a.drop_first(), b.drop_first())
    }
}

/// The order of component kinds that `std::path::Component` derives.
pub open spec fn component_rank(c: ComponentView) -> int {
    match c {
        ComponentView::RootDir => 1,
        ComponentView::CurDir => 2,
        ComponentView::ParentDir => 3,
        ComponentView::Normal(_) => 4,
    }
}

pub open spec fn component_order(a: ComponentView, b: ComponentView) -> int {
    if component_rank(a) < component_rank(b) {
        -1
    } else if component_rank(a) > component_rank(b) {
        1
    } else {
        match (a, b) {
            (ComponentView::Normal(x), ComponentView::Normal(y)) => chars_order(x, y),
            _ => 0,
        }
    }
}

/// Three-way comparison of paths, component by component, as `Path` orders them.
pub open spec fn path_order(a: Seq<ComponentView>, b: Seq<ComponentView>) -> int
    decreases a.len(),
{
    if a.len() == 0 && b.len() == 0 {
        0
    } else if a.len() == 0 {
        -1
    } else if b.len() == 0 {
        1
    } else if component_order(a[0], b[0]) != 0 {
        component_order(a[0], b[0])
    } else {
        path_order(a.drop_first(), b.drop_first())
    }
}

pub proof fn lemma_chars_order(a: Seq<char>, b: Seq<char>)
    ensures
        chars_order(a, b) == 0 <==> a == b,
        chars_order(a, b) == -chars_order(b, a),
        -1 <= chars_order(a, b) <= 1,
    decreases a.len(),
{
    if a.len() > 0 && b.len() > 0 && a[0] == b[0] {
        lemma_chars_order(a.drop_first(), b.drop_first());
        if a.drop_first() == b.drop_first() {
            assert(a =~= seq![a[0]] + a.drop_first());
            assert(b =~= seq![b[0]] + b.drop_first());
        }
    }
    if a.len() == 0 && b.len() == 0 {
        assert(a =~= b);
    }
}

proof fn lemma_component_order(a: ComponentView, b: ComponentView)
    ensures
        component_order(a, b) == 0 <==> a == b,
        component_order(a, b) == -component_order(b, a),
        -1 <= component_order(a, b) <= 1,
{
    if let (ComponentView::Normal(x), ComponentView::Normal(y)) = (a, b) {
        lemma_chars_order(x, y);
    }
}

proof fn lemma_path_order(a: Seq<ComponentView>, b: Seq<ComponentView>)
    ensures
        path_order(a, b) == 0 <==> a == b,
        path_order(a, b) == -path_order(b, a),
        -1 <= path_order(a, b) <= 1,
    decreases a.len(),
{
    if a.len() > 0 && b.len() > 0 {
        lemma_component_order(a[0], b[0]);
        if component_order(a[0], b[0]) == 0 {
            lemma_path_order(a.drop_first(), b.drop_first());
            if a.drop_first() == b.drop_first() {
                assert(a =~= seq![a[0]] + a.drop_first());
                assert(b =~= seq![b[0]] + b.drop_first());
            }
        }
    }
    if a.len() == 0 && b.len() == 0 {
        assert(a =~= b);
    }
}

pub fn compare_chars(a: &Vec<char>, b: &Vec<char>) -> (order: i8)
    ensures
        order as int == chars_order(a@, b@),
{
    let mut i: usize = 0;
    assert(a@.skip(0) =~= a@);
    assert(b@.skip(0) =~= b@);
    while i < a.len() && i < b.len()
        invariant
            i <= a@.len(),
            i <= b@.len(),
            chars_order(a@, b@) == chars_order(a@.skip(i as int), b@.skip(i as int)),
        decreases a@.len() - i,
    {
        let x = a[i];
        let y = b[i];
        assert(a@.skip(i as int)[0] == x);
        assert(b@.skip(i as int)[0] == y);
        if x < y {
            return -1;
        }
        if x > y {
            return 1;
        }
        assert(a@.skip(i as int).drop_first() =~= a@.skip(i + 1));
        assert(b@.skip(i as int).drop_first() =~= b@.skip(i + 1));
        i += 1;
    }
    if i == a.len() && i == b.len() {
        0
    } else if i == a.len() {
        -1
    } else {
        1
    }
}

fn component_rank_exec(c: &Component) -> (rank: i8)
    ensures
        rank as int == component_rank(c@),
{
    match c {
        Component::RootDir => 1,
        Component::CurDir => 2,
        Component::ParentDir => 3,
        Component::Normal(_) => 4,
    }
}

fn compare_component(a: &Component, b: &Component) -> (order: i8)
    ensures
        order as int == component_order(a@, b@),
{
    let ra = component_rank_exec(a);
    let rb = component_rank_exec(b);
    if ra < rb {
        -1
    } else if ra > rb {
        1
    } else {
        match (a, b) {
            (Component::Normal(x), Component::Normal(y)) => {
                let xc = chars_of(x.as_str());
                let yc = chars_of(y.as_str());
                compare_chars(&xc, &yc)
            },
            _ => 0,
        }
    }
}

/// Three-way comparison of two component lists.
pub fn compare_paths(a: &Vec<Component>, b: &Vec<Component>) -> (order: i8)
    ensures
        order as int == path_order(a.deep_view(), b.deep_view()),
{
    let mut i: usize = 0;
    assert(a.deep_view().skip(0) =~= a.deep_view());
    assert(b.deep_view().skip(0) =~= b.deep_view());
    while i < a.len() && i < b.len()
        invariant
            i <= a@.len(),
            i <= b@.len(),
            path_order(a.deep_view(), b.deep_view()) == path_order(
                a.deep_view().skip(i as int),
                b.deep_view().skip(i as int),
            ),
        decreases a@.len() - i,
    {
        assert(a.deep_view().skip(i as int)[0] == a@[i as int]@);
        assert(b.deep_view().skip(i as int)[0] == b@[i as int]@);
        let c = compare_component(&a[i], &b[i]);
        if c != 0 {
            return c;
        }
        assert(a.deep_view().skip(i as int).drop_first() =~= a.deep_view().skip(i + 1));
        assert(b.deep_view().skip(i as int).drop_first() =~= b.deep_view().skip(i + 1));
        i += 1;
    }
    if i == a.len() && i == b.len() {
        0
    } else if i == a.len() {
        -1
    } else {
        1
    }
}

/// Why a media root or a requested path was refused.
#[derive(Debug)]
pub enum FsPolicyError {
    NoRoots,
    RootNotDirectory { path: String },
    CurrentDirectory { message: String },
    Inspect { path: String, message: String },
    Canonicalize { path: String, message: String },
    NoExistingAncestor { path: String },
    OutsideAllowedRoots { path: String },
}

/// The views of a list of paths.
pub open spec fn paths_view(paths: Seq<Vec<Component>>) -> Seq<Seq<ComponentView>> {
    paths.map_values(|p: Vec<Component>| p.deep_view())
}

/// Each path is strictly smaller than the next one.
pub open spec fn strictly_ascending(paths: Seq<Seq<ComponentView>>) -> bool {
    forall|i: int| 0 <= i < paths.len() - 1 ==> path_order(#[trigger] paths[i], paths[i + 1]) == -1
}

/// Canonical filesystem roots under which server media access is permitted.
#[derive(Debug)]
pub struct FsPolicy {
    roots: Vec<Vec<Component>>,
}

impl FsPolicy {
    #[verifier::type_invariant]
    spec fn well_formed(self) -> bool {
        &&& self.roots@.len() > 0
        &&& strictly_ascending(paths_view(self.roots@))
        &&& paths_view(self.roots@).no_duplicates()
    }

    pub closed spec fn roots_view(&self) -> Seq<Seq<ComponentView>> {
        paths_view(self.roots@)
    }

    /// A policy over the given canonical directories, sorted in path order and
    /// with duplicates removed; refused when there are none.
    pub fn new(canonical_roots: Vec<Vec<Component>>) -> (policy: Result<FsPolicy, FsPolicyError>)
        ensures
            policy is Ok <==> canonical_roots@.len() > 0,
            match policy {
                Ok(p) => {
                    &&& p.roots_view().to_set() == paths_view(canonical_roots@).to_set()
                    &&& strictly_ascending(p.roots_view())
                    &&& p.roots_view().no_duplicates()
                },
                Err(e) => e is NoRoots,
            },
    {
        let mut sorted: Vec<Vec<Component>> = Vec::new();
        let mut i: usize = 0;
        while i < canonical_roots.len()
            invariant
                i <= canonical_roots@.len(),
                strictly_ascending(paths_view(sorted@)),
                paths_view(sorted@).no_duplicates(),
                paths_view(sorted@).to_set() == paths_view(canonical_roots@.take(i as int)).to_set(),
                i > 0 ==> sorted@.len() > 0,
            decreases canonical_roots@.len() - i,
        {
            let root = &canonical_roots[i];
            proof {
                assert(canonical_roots@.take(i + 1) =~= canonical_roots@.take(i as int).push(
                    canonical_roots@[i as int],
                ));
                assert(paths_view(canonical_roots@.take(i + 1)) =~= paths_view(
                    canonical_roots@.take(i as int),
                ).push(root.deep_view()));
            }
            insert_sorted_unique(&mut sorted, root);
            proof {
                paths_view(canonical_roots@.take(i as int)).lemma_push_to_set_commute(
                    root.deep_view(),
                );
            }
            i += 1;
        }
        assert(canonical_roots@.take(canonical_roots@.len() as int) =~= canonical_roots@);
        if sorted.len() == 0 {
            proof {
                if canonical_roots@.len() > 0 {
                    assert(paths_view(canonical_roots@).to_set().contains(
                        canonical_roots@[0].deep_view(),
                    ));
                    assert(paths_view(sorted@).to_set().contains(canonical_roots@[0].deep_view()));
                }
            }
            return Err(FsPolicyError::NoRoots);
        }
        proof {
            assert(paths_view(sorted@).to_set().contains(paths_view(sorted@)[0]));
            if canonical_roots@.len() == 0 {
                assert(paths_view(canonical_roots@).len() == 0);
                assert(!paths_view(canonical_roots@).to_set().contains(paths_view(sorted@)[0]));
            }
        }
        Ok(FsPolicy { roots: sorted })
    }

    pub fn roots(&self) -> (roots: &[Vec<Component>])
        ensures
            paths_view(roots@) == self.roots_view(),
    {
        self.roots.as_slice()
    }

    /// Accepts `canonical` when it lies under one of the roots, component-wise.
    pub fn require_allowed(&self, requested: &str, canonical: &Vec<Component>) -> (result: Result<
        (),
        FsPolicyError,
    >)
        ensures
            result is Ok <==> exists|i: int| 0 <= i < self.roots_view().len() && starts_with_spec(
                canonical.deep_view(),
                #[trigger] self.roots_view()[i],
            ),
            match result {
                Err(FsPolicyError::OutsideAllowedRoots { path }) => path@ == requested@,
                Err(_) => false,
                Ok(()) => true,
            },
    {
        let mut i: usize = 0;
        while i < self.roots.len()
            invariant
                i <= self.roots@.len(),
                forall|j: int| 0 <= j < i ==> !starts_with_spec(
                    canonical.deep_view(),
                    #[trigger] self.roots_view()[j],
                ),
            decreases self.roots@.len() - i,
        {
            assert(self.roots_view()[i as int] == self.roots@[i as int].deep_view());
            if starts_with(canonical, &self.roots[i]) {
                return Ok(());
            }
            i += 1;
        }
        Err(FsPolicyError::OutsideAllowedRoots { path: requested.to_owned() })
    }

    /// An existing readable path: allowed when its canonical form lies under a
    /// root, and then given back in canonical form.
    pub fn validate_read(&self, requested: &str, canonical: Vec<Component>) -> (result: Result<
        Vec<Component>,
        FsPolicyError,
    >)
        ensures
            result is Ok <==> exists|i: int| 0 <= i < self.roots_view().len() && starts_with_spec(
                canonical.deep_view(),
                #[trigger] self.roots_view()[i],
            ),
            match result {
                Ok(p) => p.deep_view() == canonical.deep_view(),
                Err(FsPolicyError::OutsideAllowedRoots { path }) => path@ == requested@,
                Err(_) => false,
            },
    {
        match self.require_allowed(requested, &canonical) {
            Ok(()) => Ok(canonical),
            Err(e) => Err(e),
        }
    }

    /// A path that may not exist yet: allowed when the canonical form of its
    /// nearest existing ancestor lies under a root; the absolute path is given back.
    pub fn validate_write(
        &self,
        absolute: Vec<Component>,
        canonical_ancestor: &Vec<Component>,
    ) -> (result: Result<Vec<Component>, FsPolicyError>)
        ensures
            result is Ok <==> exists|i: int| 0 <= i < self.roots_view().len() && starts_with_spec(
                canonical_ancestor.deep_view(),
                #[trigger] self.roots_view()[i],
            ),
            match result {
                Ok(p) => p.deep_view() == absolute.deep_view(),
                Err(FsPolicyError::OutsideAllowedRoots { path }) => path@ == render_spec(
                    absolute.deep_view(),
                ),
                Err(_) => false,
            },
    {
        let requested = render(&absolute);
        match self.require_allowed(requested.as_str(), canonical_ancestor) {
            Ok(()) => Ok(absolute),
            Err(e) => Err(e),
        }
    }
}


fn compare_at(sorted: &Vec<Vec<Component>>, k: usize, root: &Vec<Component>) -> (order: i8)
    requires
        k < sorted@.len(),
    ensures
        order as int == path_order(paths_view(sorted@)[k as int], root.deep_view()),
{
    compare_paths(&sorted[k], root)
}

/// Inserts `root` into an ascending, duplicate-free list unless it is present.
#[verifier::spinoff_prover]
#[verifier::rlimit(40)]
pub(crate) fn insert_sorted_unique(sorted: &mut Vec<Vec<Component>>, root: &Vec<Component>)
    requires
        strictly_ascending(paths_view(old(sorted)@)),
        paths_view(old(sorted)@).no_duplicates(),
    ensures
        strictly_ascending(paths_view(final(sorted)@)),
        paths_view(final(sorted)@).no_duplicates(),
        paths_view(final(sorted)@).to_set() == paths_view(old(sorted)@).to_set().insert(
            root.deep_view(),
        ),
        final(sorted)@.len() > 0,
{
    let ghost before = paths_view(sorted@);
    let mut found = false;
    let mut m: usize = 0;
    while m < sorted.len()
        invariant
            m <= sorted@.len(),
            before == paths_view(sorted@),
            found == exists|j: int| 0 <= j < m && before[j] == root.deep_view(),
        decreases sorted@.len() - m,
    {
        assert(before[m as int] == sorted@[m as int].deep_view());
        let c = compare_paths(&sorted[m], root);
        proof {
            lemma_path_order(before[m as int], root.deep_view());
        }
        if c == 0 {
            found = true;
        }
        m += 1;
    }
    let mut k: usize = 0;
    if !found {
        while k < sorted.len() && compare_at(sorted, k, root) == -1
            invariant
                k <= sorted@.len(),
                before == paths_view(sorted@),
                forall|j: int| 0 <= j < k ==> path_order(before[j], root.deep_view()) == -1,
            decreases sorted@.len() - k,
        {
            k += 1;
        }
        if k < sorted.len() {
            assert(before[k as int] == sorted@[k as int].deep_view());
        }
    }
    if !found {
        let copy = clone_path(root);
        sorted.insert(k, copy);
        proof {
            let after = paths_view(sorted@);
            assert(after =~= before.insert(k as int, root.deep_view()));
            if k < before.len() {
        lemma_path_order(before[k as int], root.deep_view());
            }
            assert forall|j: int| 0 <= j < after.len() - 1 implies path_order(
        #[trigger] after[j],
        after[j + 1],
            ) == -1 by {
        if j + 1 < k {
            assert(after[j] == before[j] && after[j + 1] == before[j + 1]);
        } else if j + 1 == k {
        } else if j == k {
        } else {
            assert(after[j] == before[j - 1] && after[j + 1] == before[j]);
        }
            }
            if k < before.len() {
        assert(path_order(before[k as int], root.deep_view()) != 0);
            }
            assert forall|a: int, b: int| 0 <= a < b < after.len() implies after[a]
        != after[b] by {
        if a == k as int {
            assert(after[b] == before[b - 1]);
        } else if b == k as int {
            assert(after[a] == before[a]);
        } else if a < k && b < k {
            assert(after[a] == before[a] && after[b] == before[b]);
        } else if a < k {
            assert(after[a] == before[a] && after[b] == before[b - 1]);
        } else {
            assert(after[a] == before[a - 1] && after[b] == before[b - 1]);
        }
            }
            assert(after.to_set() =~= before.to_set().insert(root.deep_view())) by {
        assert forall|x| after.to_set().contains(x) implies before.to_set().insert(
            root.deep_view(),
        ).contains(x) by {
            let j = choose|j: int| 0 <= j < after.len() && after[j] == x;
            if j < k {
                assert(before[j] == x);
            } else if j > k {
                assert(before[j - 1] == x);
            }
        }
        assert forall|x| before.to_set().insert(root.deep_view()).contains(
            x,
        ) implies after.to_set().contains(x) by {
            if x == root.deep_view() {
                assert(after[k as int] == x);
            } else {
                let j = choose|j: int| 0 <= j < before.len() && before[j] == x;
                if j < k {
            assert(after[j] == x);
                } else {
            assert(after[j + 1] == x);
                }
            }
        }
            }
        }
    } else {
        proof {
            let j = choose|j: int| 0 <= j < sorted@.len() && before[j] == root.deep_view();
            assert(before.to_set().contains(root.deep_view()));
            assert(before.to_set().insert(root.deep_view()) =~= before.to_set());
        }
    }
}

/// A copy of a component list.
pub fn clone_path(path: &Vec<Component>) -> (copy: Vec<Component>)
    ensures
        copy.deep_view() == path.deep_view(),
{
    let mut copy: Vec<Component> = Vec::new();
    let mut i: usize = 0;
    while i < path.len()
        invariant
            i <= path@.len(),
            copy.deep_view() == path.deep_view().take(i as int),
        decreases path@.len() - i,
    {
        let c = path[i].clone();
        let ghost before = copy.deep_view();
        assert(path.deep_view()[i as int] == path@[i as int]@);
        copy.push(c);
        assert(copy.deep_view() =~= before.push(path.deep_view()[i as int]));
        assert(copy.deep_view() =~= path.deep_view().take(i + 1));
        i += 1;
    }
    assert(path.deep_view().take(path@.len() as int) =~= path.deep_view());
    copy
}

} // verus!
