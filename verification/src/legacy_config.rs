//! Migration of legacy configuration files: old top-level keys move to their
//! nested places, unless the nested setting is already given.
//!
//! A configuration file is seen here as its leaves: each leaf is the path of
//! keys leading to it and a reference to its value, which the caller keeps.
//! Empty tables are leaves too, so that nothing of the file is lost.
use vstd::prelude::*;

use crate::text::{concat_str, str_equal};

verus! {

broadcast use vstd::string::group_string_axioms;

/// What sits at the end of a path.
#[derive(Debug, Clone, PartialEq, Eq)]
pub enum Leaf {
    /// A value of the file, by its position in the caller's list of values.
    Value(usize),
    /// A table without entries.
    EmptyTable,
    /// A list of provider names created by the migration.
    Providers(Vec<String>),
}

/// One leaf of a configuration file.
#[derive(Debug)]
pub struct FlatEntry {
    pub path: Vec<String>,
    pub leaf: Leaf,
}

pub enum LeafView {
    Value(usize),
    EmptyTable,
    Providers(Seq<Seq<char>>),
}

pub type PathView = Seq<Seq<char>>;

pub type EntryView = (PathView, LeafView);

pub open spec fn leaf_view(leaf: Leaf) -> LeafView {
    match leaf {
        Leaf::Value(i) => LeafView::Value(i),
        Leaf::EmptyTable => LeafView::EmptyTable,
        Leaf::Providers(p) => LeafView::Providers(p@.map_values(|s: String| s@)),
    }
}

pub open spec fn path_view(path: Seq<String>) -> PathView {
    path.map_values(|s: String| s@)
}

pub open spec fn entry_view(e: FlatEntry) -> EntryView {
    (path_view(e.path@), leaf_view(e.leaf))
}

/// The leaves of a file, as a set.
pub open spec fn leaves(entries: Seq<FlatEntry>) -> Set<EntryView> {
    entries.map_values(|e: FlatEntry| entry_view(e)).to_set()
}

pub open spec fn proper_prefix(p: PathView, q: PathView) -> bool {
    p.len() < q.len() && q.take(p.len() as int) == p
}

/// The leaves under the top-level key `key`.
pub open spec fn under(s: Set<EntryView>, key: Seq<char>) -> Set<EntryView> {
    s.filter(|e: EntryView| e.0.len() > 0 && e.0[0] == key)
}

/// `s` without the top-level key `key`.
pub open spec fn without(s: Set<EntryView>, key: Seq<char>) -> Set<EntryView> {
    s.filter(|e: EntryView| !(e.0.len() > 0 && e.0[0] == key))
}

/// Leaves moved from beneath `key` to beneath `target`.
pub open spec fn rerooted(s: Set<EntryView>, target: PathView) -> Set<EntryView> {
    s.map(|e: EntryView| (target + e.0.drop_first(), e.1))
}

/// Whether a setting exists at `target`, or a value that is not a table
/// stands on the way to it.
pub open spec fn occupied(s: Set<EntryView>, target: PathView) -> bool {
    exists|e: EntryView| #[trigger] s.contains(e) && (e.0 == target || proper_prefix(target, e.0)
        || (proper_prefix(e.0, target) && !(e.1 is EmptyTable)))
}

/// The leaves of a value placed at `target`.
pub open spec fn shift(target: PathView) -> spec_fn(EntryView) -> EntryView {
    |e: EntryView| (target + e.0, e.1)
}

/// Places the leaves `moved` (paths relative to the moved value) at
/// `target`, unless something already occupies it; empty tables on the way
/// stop being empty.
pub open spec fn place(s: Set<EntryView>, target: PathView, moved: Set<EntryView>) -> Set<EntryView> {
    if occupied(s, target) {
        s
    } else {
        s.filter(|e: EntryView| !proper_prefix(e.0, target)).union(
            moved.map(shift(target)),
        )
    }
}

/// The first alias that is present.
pub open spec fn first_present(s: Set<EntryView>, aliases: Seq<Seq<char>>) -> Option<Seq<char>>
    decreases aliases.len(),
{
    if aliases.len() == 0 {
        None
    } else if exists|e: EntryView| #[trigger] under(s, aliases[0]).contains(e) {
        Some(aliases[0])
    } else {
        first_present(s, aliases.drop_first())
    }
}

/// `s` without any of the aliases.
pub open spec fn without_all(s: Set<EntryView>, aliases: Seq<Seq<char>>) -> Set<EntryView>
    decreases aliases.len(),
{
    if aliases.len() == 0 {
        s
    } else {
        without_all(without(s, aliases[0]), aliases.drop_first())
    }
}

/// A leaf seen from inside its top-level key.
pub open spec fn unshift() -> spec_fn(EntryView) -> EntryView {
    |e: EntryView| (e.0.drop_first(), e.1)
}

/// The value under a key, with paths relative to the key.
pub open spec fn value_of(s: Set<EntryView>, key: Seq<char>) -> Set<EntryView> {
    under(s, key).map(unshift())
}

/// Moves the first present alias to `target` and drops the others.
pub open spec fn move_legacy(s: Set<EntryView>, aliases: Seq<Seq<char>>, target: PathView) -> Set<EntryView> {
    let rest = without_all(s, aliases);
    match first_present(s, aliases) {
        Some(a) => place(rest, target, value_of(s, a)),
        None => rest,
    }
}

pub open spec fn p1(a: Seq<char>) -> PathView {
    seq![a]
}

pub open spec fn p3(a: Seq<char>, b: Seq<char>, c: Seq<char>) -> PathView {
    seq![a, b, c]
}

/// The moves of legacy top-level keys, in order.
pub open spec fn legacy_moves(s: Set<EntryView>) -> Set<EntryView> {
    let s1 = move_legacy(s, seq!["api_key"@, "tmdb_api_token"@], p3("providers"@, "tmdb"@, "api_token"@));
    let s2 = move_legacy(s1, seq!["tmdb_base_url"@], p3("providers"@, "tmdb"@, "base_url"@));
    let s3 = move_legacy(s2, seq!["bangumi_base_url"@], p3("providers"@, "bangumi"@, "base_url"@));
    let s4 = move_legacy(s3, seq!["musicbrainz_base_url"@], p3("providers"@, "musicbrainz"@, "base_url"@));
    let s5 = move_legacy(s4, seq!["openlibrary_base_url"@], p3("providers"@, "openlibrary"@, "base_url"@));
    let s6 = move_legacy(s5, seq!["openlibrary_cover_base_url"@], p3("providers"@, "openlibrary"@, "cover_base_url"@));
    let s7 = move_legacy(s6, seq!["anilist_endpoint"@], p3("providers"@, "anilist"@, "base_url"@));
    move_legacy(s7, seq!["anilist_token"@, "anilist_access_token"@], p3("providers"@, "anilist"@, "access_token"@))
}

/// The providers enabled by default, and AniList when asked for.
pub open spec fn default_provider_list(with_anilist: bool) -> Seq<Seq<char>> {
    let base = seq!["local"@, "tmdb"@, "bangumi"@, "musicbrainz"@, "openlibrary"@];
    if with_anilist {
        base.push("anilist"@)
    } else {
        base
    }
}

/// Whether anything is set under a top-level key.
pub open spec fn has_key(s: Set<EntryView>, key: Seq<char>) -> bool {
    exists|e: EntryView| #[trigger] under(s, key).contains(e)
}

/// The legacy AniList switch becomes the list of enabled providers unless
/// one is given; `enabled` is the switch's value read as a boolean, which
/// may be refused, and is consulted only when the switch is present.
pub open spec fn anilist_step(s: Set<EntryView>, enabled: Result<bool, String>) -> Result<Set<EntryView>, String> {
    let rest = without(s, "anilist_enabled"@);
    if has_key(s, "anilist_enabled"@) && !has_key(rest, "enabled_providers"@) {
        match enabled {
            Ok(b) => Ok(place(rest, p1("enabled_providers"@), set![(seq![], LeafView::Providers(default_provider_list(b)))])),
            Err(m) => Err(m),
        }
    } else {
        Ok(rest)
    }
}

/// Merges one leaf into `s`: it is added where nothing occupies its place.
pub open spec fn merge_leaf(s: Set<EntryView>, e: EntryView) -> Set<EntryView> {
    if e.0.len() > 0 {
        place(s, e.0, set![(seq![], e.1)])
    } else {
        s
    }
}

/// Merges leaves one after the other, in the given order.
pub open spec fn merge_all(s: Set<EntryView>, order: Seq<EntryView>) -> Set<EntryView>
    decreases order.len(),
{
    if order.len() == 0 {
        s
    } else {
        merge_leaf(merge_all(s, order.drop_last()), order.last())
    }
}

/// Whether the value under a top-level key is a table.
pub open spec fn table_under(s: Set<EntryView>, key: Seq<char>) -> bool {
    exists|e: EntryView| #[trigger] under(s, key).contains(e) && (e.0.len() > 1 || e.1 is EmptyTable)
}

/// What the secret references table becomes before it is merged.
pub open spec fn references_moved(s: Set<EntryView>) -> Set<EntryView> {
    let r = without(value_of(s, "secret_references"@), "bangumi_access_token"@);
    let r1 = move_legacy(r, seq!["tmdb_api_token"@], p3("providers"@, "tmdb"@, "api_token_env"@));
    move_legacy(r1, seq!["anilist_access_token"@], p3("providers"@, "anilist"@, "access_token_env"@))
}

/// The secret references table moves its entries to the provider settings,
/// where nothing is set yet; a `secret_references` value that is not a
/// table stays as it is.
pub open spec fn references_step(s: Set<EntryView>, result: Set<EntryView>) -> bool {
    if table_under(s, "secret_references"@) {
        exists|order: Seq<EntryView>| #[trigger] order.to_set() == references_moved(s)
            && result == merge_all(without(s, "secret_references"@), order)
    } else {
        result == s
    }
}

pub struct FlatFile {
    pub entries: Vec<FlatEntry>,
}

/// The leaves of a well-formed file: no leaf lies on the path to another.
pub open spec fn well_formed(s: Set<EntryView>) -> bool {
    forall|a: EntryView, b: EntryView| #[trigger] s.contains(a) && #[trigger] s.contains(b) && a != b ==> a.0 != b.0 && !proper_prefix(a.0, b.0)
}

fn path_equal(a: &Vec<String>, b: &Vec<String>) -> (equal: bool)
    ensures
        equal == (path_view(a@) == path_view(b@)),
{
    if a.len() != b.len() {
        assert(path_view(a@).len() != path_view(b@).len());
        return false;
    }
    let mut i: usize = 0;
    while i < a.len()
        invariant
            a@.len() == b@.len(),
            i <= a@.len(),
            forall|j: int| 0 <= j < i ==> path_view(a@)[j] == path_view(b@)[j],
        decreases a@.len() - i,
    {
        if !str_equal(a[i].as_str(), b[i].as_str()) {
            assert(path_view(a@)[i as int] != path_view(b@)[i as int]);
            return false;
        }
        i += 1;
    }
    assert(path_view(a@) =~= path_view(b@));
    true
}

fn is_proper_prefix(p: &Vec<String>, q: &Vec<String>) -> (prefix: bool)
    ensures
        prefix == proper_prefix(path_view(p@), path_view(q@)),
{
    if p.len() >= q.len() {
        return false;
    }
    let mut i: usize = 0;
    while i < p.len()
        invariant
            p@.len() < q@.len(),
            i <= p@.len(),
            forall|j: int| 0 <= j < i ==> path_view(p@)[j] == path_view(q@)[j],
        decreases p@.len() - i,
    {
        if !str_equal(p[i].as_str(), q[i].as_str()) {
            assert(path_view(q@).take(path_view(p@).len() as int)[i as int] != path_view(p@)[i as int]);
            return false;
        }
        i += 1;
    }
    assert(path_view(q@).take(path_view(p@).len() as int) =~= path_view(p@));
    true
}

fn top_key_is(path: &Vec<String>, key: &str) -> (is: bool)
    ensures
        is == (path_view(path@).len() > 0 && path_view(path@)[0] == key@),
{
    path.len() > 0 && str_equal(path[0].as_str(), key)
}

fn clone_strings(v: &Vec<String>) -> (copy: Vec<String>)
    ensures
        path_view(copy@) == path_view(v@),
{
    let mut copy: Vec<String> = Vec::new();
    let mut i: usize = 0;
    while i < v.len()
        invariant
            i <= v@.len(),
            path_view(copy@) == path_view(v@).take(i as int),
        decreases v@.len() - i,
    {
        let item = v[i].clone();
        assert(item@ == path_view(v@)[i as int]);
        let ghost before = copy@;
        copy.push(item);
        assert(path_view(copy@) =~= path_view(before).push(item@));
        assert(path_view(copy@) =~= path_view(v@).take(i + 1));
        i += 1;
    }
    assert(path_view(v@).take(i as int) =~= path_view(v@));
    copy
}

fn clone_leaf(leaf: &Leaf) -> (copy: Leaf)
    ensures
        leaf_view(copy) == leaf_view(*leaf),
{
    match leaf {
        Leaf::Value(i) => Leaf::Value(*i),
        Leaf::EmptyTable => Leaf::EmptyTable,
        Leaf::Providers(p) => {
            let c = clone_strings(p);
            assert(c@.map_values(|s: String| s@) == path_view(c@));
            Leaf::Providers(c)
        },
    }
}

proof fn lemma_to_set_drop_last<A>(v: Seq<A>)
    requires
        v.len() > 0,
    ensures
        v.to_set() == v.drop_last().to_set().insert(v.last()),
{
    assert(v.drop_last().push(v.last()) =~= v);
    v.drop_last().lemma_push_to_set_commute(v.last());
}

pub open spec fn views(entries: Seq<FlatEntry>) -> Seq<EntryView> {
    entries.map_values(|e: FlatEntry| entry_view(e))
}

/// Splits leaves into those under `key` and the others.
fn split_key(entries: Vec<FlatEntry>, key: &str) -> (parts: (Vec<FlatEntry>, Vec<FlatEntry>))
    ensures
        leaves(parts.0@) == without(leaves(entries@), key@),
        leaves(parts.1@) == under(leaves(entries@), key@),
{
    let ghost all = leaves(entries@);
    let mut rest = entries;
    let mut kept: Vec<FlatEntry> = Vec::new();
    let mut removed: Vec<FlatEntry> = Vec::new();
    let ghost mut done: Set<EntryView> = Set::empty();
    assert(leaves(kept@) =~= Set::<EntryView>::empty());
    assert(leaves(removed@) =~= Set::<EntryView>::empty());
    assert(all =~= leaves(rest@).union(done));
    while rest.len() > 0
        invariant
            all == leaves(rest@).union(done),
            leaves(kept@) == without(done, key@),
            leaves(removed@) == under(done, key@),
        decreases rest@.len(),
    {
        let ghost before = views(rest@);
        let entry = rest.pop().unwrap();
        let ghost x = entry_view(entry);
        proof {
            assert(before =~= views(rest@).push(x));
            lemma_to_set_drop_last(before);
            assert(before.drop_last() =~= views(rest@));
        }
        let ghost kept_before = views(kept@);
        let ghost removed_before = views(removed@);
        if top_key_is(&entry.path, key) {
            removed.push(entry);
            proof {
                assert(views(removed@) =~= removed_before.push(x));
                removed_before.lemma_push_to_set_commute(x);
            }
        } else {
            kept.push(entry);
            proof {
                assert(views(kept@) =~= kept_before.push(x));
                kept_before.lemma_push_to_set_commute(x);
            }
        }
        proof {
            done = done.insert(x);
            assert(all =~= leaves(rest@).union(done));
            assert(leaves(kept@) =~= without(done, key@));
            assert(leaves(removed@) =~= under(done, key@));
        }
    }
    proof {
        assert(views(rest@) =~= Seq::<EntryView>::empty());
        assert(leaves(rest@) =~= Set::<EntryView>::empty());
        assert(all =~= done);
    }
    (kept, removed)
}

/// Whether some leaf occupies `target`.
fn is_occupied(entries: &Vec<FlatEntry>, target: &Vec<String>) -> (found: bool)
    ensures
        found == occupied(leaves(entries@), path_view(target@)),
{
    let ghost t = path_view(target@);
    let mut i: usize = 0;
    while i < entries.len()
        invariant
            t == path_view(target@),
            i <= entries@.len(),
            forall|j: int| 0 <= j < i ==> !({
                let e = #[trigger] views(entries@)[j];
                e.0 == t || proper_prefix(t, e.0) || (proper_prefix(e.0, t) && !(e.1 is EmptyTable))
            }),
        decreases entries@.len() - i,
    {
        let entry = &entries[i];
        assert(views(entries@)[i as int] == entry_view(*entry));
        let empty = match entry.leaf {
            Leaf::EmptyTable => true,
            _ => false,
        };
        if path_equal(&entry.path, target) || is_proper_prefix(target, &entry.path) || (
        is_proper_prefix(&entry.path, target) && !empty) {
            proof {
                let e = views(entries@)[i as int];
                assert(leaves(entries@).contains(e));
            }
            return true;
        }
        i += 1;
    }
    proof {
        if occupied(leaves(entries@), t) {
            let e = choose|e: EntryView| #[trigger] leaves(entries@).contains(e) && (e.0 == t || proper_prefix(t, e.0)
                || (proper_prefix(e.0, t) && !(e.1 is EmptyTable)));
            let j = choose|j: int| 0 <= j < views(entries@).len() && views(entries@)[j] == e;
            assert(views(entries@)[j] == e);
        }
    }
    false
}

proof fn lemma_shift_insert(s: Set<EntryView>, t: PathView, x: EntryView)
    ensures
        s.insert(x).map(shift(t)) =~= s.map(shift(t)).insert((t + x.0, x.1)),
{
    let f = shift(t);
    assert(f(x) == (t + x.0, x.1));
    assert forall|z: EntryView| #[trigger] s.insert(x).map(f).contains(z) implies s.map(f).insert(f(x)).contains(z) by {
        let w = choose|w: EntryView| s.insert(x).contains(w) && f(w) == z;
        if w != x {
            assert(s.contains(w));
            assert(s.map(f).contains(f(w)));
        }
    }
    assert forall|z: EntryView| #[trigger] s.map(f).insert(f(x)).contains(z) implies s.insert(x).map(f).contains(z) by {
        if z == f(x) {
            assert(s.insert(x).contains(x));
            assert(s.insert(x).map(f).contains(f(x)));
        } else {
            let w = choose|w: EntryView| s.contains(w) && f(w) == z;
            assert(s.insert(x).contains(w));
            assert(s.insert(x).map(f).contains(f(w)));
        }
    }
    assert(s.insert(x).map(f) =~= s.map(f).insert(f(x)));
}

fn join_paths(a: &Vec<String>, b: &Vec<String>) -> (joined: Vec<String>)
    ensures
        path_view(joined@) == path_view(a@) + path_view(b@),
{
    let mut joined = clone_strings(a);
    let mut i: usize = 0;
    while i < b.len()
        invariant
            i <= b@.len(),
            path_view(joined@) == path_view(a@) + path_view(b@).take(i as int),
        decreases b@.len() - i,
    {
        let item = b[i].clone();
        let ghost before = joined@;
        joined.push(item);
        assert(path_view(joined@) =~= path_view(before).push(item@));
        assert(path_view(a@) + path_view(b@).take(i + 1) =~= (path_view(a@) + path_view(b@).take(i as int)).push(item@));
        i += 1;
    }
    assert(path_view(b@).take(i as int) =~= path_view(b@));
    joined
}

/// Places the leaves `moved` at `target` unless the place is occupied.
fn place_leaves(entries: Vec<FlatEntry>, target: &Vec<String>, moved: Vec<FlatEntry>) -> (placed: Vec<FlatEntry>)
    ensures
        leaves(placed@) == place(leaves(entries@), path_view(target@), leaves(moved@)),
{
    if is_occupied(&entries, target) {
        return entries;
    }
    let ghost all = leaves(entries@);
    let ghost t = path_view(target@);
    let mut rest = entries;
    let mut result: Vec<FlatEntry> = Vec::new();
    let ghost mut done: Set<EntryView> = Set::empty();
    assert(leaves(result@) =~= Set::<EntryView>::empty());
    assert(all =~= leaves(rest@).union(done));
    while rest.len() > 0
        invariant
            t == path_view(target@),
            all == leaves(rest@).union(done),
            leaves(result@) == done.filter(|e: EntryView| !proper_prefix(e.0, t)),
        decreases rest@.len(),
    {
        let ghost before = views(rest@);
        let entry = rest.pop().unwrap();
        let ghost x = entry_view(entry);
        proof {
            assert(before =~= views(rest@).push(x));
            lemma_to_set_drop_last(before);
            assert(before.drop_last() =~= views(rest@));
        }
        let ghost result_before = views(result@);
        if !is_proper_prefix(&entry.path, target) {
            result.push(entry);
            proof {
                assert(views(result@) =~= result_before.push(x));
                result_before.lemma_push_to_set_commute(x);
            }
        }
        proof {
            done = done.insert(x);
            assert(all =~= leaves(rest@).union(done));
            assert(leaves(result@) =~= done.filter(|e: EntryView| !proper_prefix(e.0, t)));
        }
    }
    proof {
        assert(views(rest@) =~= Seq::<EntryView>::empty());
        assert(leaves(rest@) =~= Set::<EntryView>::empty());
        assert(all =~= done);
    }
    let ghost filtered = leaves(result@);
    let ghost m_all = leaves(moved@);
    let mut source = moved;
    let ghost mut taken: Set<EntryView> = Set::empty();
    assert(m_all =~= leaves(source@).union(taken));
    assert(filtered.union(taken.map(shift(t))) =~= filtered);
    while source.len() > 0
        invariant
            t == path_view(target@),
            m_all == leaves(source@).union(taken),
            leaves(result@) == filtered.union(taken.map(shift(t))),
        decreases source@.len(),
    {
        let ghost before = views(source@);
        let entry = source.pop().unwrap();
        let ghost x = entry_view(entry);
        proof {
            assert(before =~= views(source@).push(x));
            lemma_to_set_drop_last(before);
            assert(before.drop_last() =~= views(source@));
        }
        let path = join_paths(target, &entry.path);
        let item = FlatEntry { path, leaf: entry.leaf };
        let ghost y = entry_view(item);
        assert(y == (t + x.0, x.1));
        let ghost result_before = views(result@);
        result.push(item);
        proof {
            assert(views(result@) =~= result_before.push(y));
            result_before.lemma_push_to_set_commute(y);
            let old_taken = taken;
            taken = taken.insert(x);
            lemma_shift_insert(old_taken, t, x);
            assert(m_all =~= leaves(source@).union(taken));
            assert(leaves(result@) =~= filtered.union(taken.map(shift(t))));
        }
    }
    proof {
        assert(views(source@) =~= Seq::<EntryView>::empty());
        assert(leaves(source@) =~= Set::<EntryView>::empty());
        assert(m_all =~= taken);
    }
    result
}

proof fn lemma_unshift_insert(s: Set<EntryView>, x: EntryView)
    ensures
        s.insert(x).map(unshift()) =~= s.map(unshift()).insert((x.0.drop_first(), x.1)),
{
    let f = unshift();
    assert(f(x) == (x.0.drop_first(), x.1));
    assert forall|z: EntryView| #[trigger] s.insert(x).map(f).contains(z) implies s.map(f).insert(f(x)).contains(z) by {
        let w = choose|w: EntryView| s.insert(x).contains(w) && f(w) == z;
        if w != x {
            assert(s.contains(w));
            assert(s.map(f).contains(f(w)));
        }
    }
    assert forall|z: EntryView| #[trigger] s.map(f).insert(f(x)).contains(z) implies s.insert(x).map(f).contains(z) by {
        if z == f(x) {
            assert(s.insert(x).contains(x));
            assert(s.insert(x).map(f).contains(f(x)));
        } else {
            let w = choose|w: EntryView| s.contains(w) && f(w) == z;
            assert(s.insert(x).contains(w));
            assert(s.insert(x).map(f).contains(f(w)));
        }
    }
    assert(s.insert(x).map(f) =~= s.map(f).insert(f(x)));
}

/// The leaves seen from inside their top-level key.
fn drop_top(entries: Vec<FlatEntry>) -> (inner: Vec<FlatEntry>)
    requires
        forall|e: EntryView| #[trigger] leaves(entries@).contains(e) ==> e.0.len() > 0,
    ensures
        leaves(inner@) == leaves(entries@).map(unshift()),
{
    let ghost all = leaves(entries@);
    let mut rest = entries;
    let mut result: Vec<FlatEntry> = Vec::new();
    let ghost mut done: Set<EntryView> = Set::empty();
    assert(leaves(result@) =~= Set::<EntryView>::empty());
    assert(done.map(unshift()) =~= Set::<EntryView>::empty());
    assert(all =~= leaves(rest@).union(done));
    while rest.len() > 0
        invariant
            all == leaves(rest@).union(done),
            leaves(result@) == done.map(unshift()),
            forall|e: EntryView| #[trigger] all.contains(e) ==> e.0.len() > 0,
        decreases rest@.len(),
    {
        let ghost before = views(rest@);
        let entry = rest.pop().unwrap();
        let ghost x = entry_view(entry);
        proof {
            assert(before =~= views(rest@).push(x));
            lemma_to_set_drop_last(before);
            assert(before.drop_last() =~= views(rest@));
            assert(all.contains(x));
        }
        let ghost old_path = entry.path@;
        let mut path = entry.path;
        if path.len() > 0 {
            path.remove(0);
        }
        let item = FlatEntry { path, leaf: entry.leaf };
        let ghost y = entry_view(item);
        proof {
            assert(path@ == old_path.remove(0));
            assert(y.0 =~= x.0.drop_first());
        }
        let ghost result_before = views(result@);
        result.push(item);
        proof {
            assert(views(result@) =~= result_before.push(y));
            result_before.lemma_push_to_set_commute(y);
            lemma_unshift_insert(done, x);
            done = done.insert(x);
            assert(all =~= leaves(rest@).union(done));
        }
    }
    proof {
        assert(views(rest@) =~= Seq::<EntryView>::empty());
        assert(leaves(rest@) =~= Set::<EntryView>::empty());
        assert(all =~= done);
    }
    result
}

proof fn lemma_without_all_push(s: Set<EntryView>, q: Seq<Seq<char>>, x: Seq<char>)
    ensures
        without_all(s, q.push(x)) == without(without_all(s, q), x),
    decreases q.len(),
{
    if q.len() == 0 {
        assert(q.push(x).drop_first() =~= Seq::<Seq<char>>::empty());
        assert(q.push(x)[0] == x);
        assert(without_all(without(s, x), Seq::<Seq<char>>::empty()) == without(s, x));
        assert(without_all(s, q) == s);
    } else {
        lemma_without_all_push(without(s, q[0]), q.drop_first(), x);
        assert(q.push(x).drop_first() =~= q.drop_first().push(x));
        assert(q.push(x)[0] == q[0]);
    }
}

proof fn lemma_first_present_push(s: Set<EntryView>, q: Seq<Seq<char>>, x: Seq<char>)
    ensures
        first_present(s, q.push(x)) == match first_present(s, q) {
            Some(a) => Some(a),
            None => if has_key(s, x) {
                Some(x)
            } else {
                None
            },
        },
    decreases q.len(),
{
    if q.len() == 0 {
        assert(q.push(x).drop_first() =~= Seq::<Seq<char>>::empty());
        assert(q.push(x)[0] == x);
        assert(first_present(s, Seq::<Seq<char>>::empty()) is None);
    } else {
        lemma_first_present_push(s, q.drop_first(), x);
        assert(q.push(x).drop_first() =~= q.drop_first().push(x));
        assert(q.push(x)[0] == q[0]);
    }
}

proof fn lemma_under_without_all(s: Set<EntryView>, q: Seq<Seq<char>>, x: Seq<char>)
    ensures
        under(without_all(s, q), x) == if q.contains(x) {
            Set::<EntryView>::empty()
        } else {
            under(s, x)
        },
    decreases q.len(),
{
    if q.len() == 0 {
    } else {
        lemma_under_without_all(without(s, q[0]), q.drop_first(), x);
        if q[0] == x {
            assert(under(without(s, q[0]), x) =~= Set::<EntryView>::empty());
            assert(q.contains(x));
            if q.drop_first().contains(x) {
            } else {
                assert(under(without_all(s, q), x) =~= under(without(s, q[0]), x));
            }
            assert forall|e: EntryView| !#[trigger] under(without_all(s, q), x).contains(e) by {
                if q.drop_first().contains(x) {
                } else {
                    assert(!under(without(s, q[0]), x).contains(e));
                }
            }
            assert(under(without_all(s, q), x) =~= Set::<EntryView>::empty());
        } else {
            assert(under(without(s, q[0]), x) =~= under(s, x));
            assert(q.contains(x) == q.drop_first().contains(x)) by {
                if q.contains(x) {
                    let k = choose|k: int| 0 <= k < q.len() && q[k] == x;
                    assert(k > 0);
                    assert(q.drop_first()[k - 1] == x);
                }
                if q.drop_first().contains(x) {
                    let k = choose|k: int| 0 <= k < q.drop_first().len() && q.drop_first()[k] == x;
                    assert(q[k + 1] == x);
                }
            }
        }
    }
}

/// Removes every alias and gives the value of the first one present, seen
/// from inside it.
fn take_legacy_value(entries: Vec<FlatEntry>, aliases: &Vec<&str>) -> (taken: (Vec<FlatEntry>, Option<Vec<FlatEntry>>))
    ensures
        leaves(taken.0@) == without_all(leaves(entries@), aliases@.map_values(|a: &str| a@)),
        match first_present(leaves(entries@), aliases@.map_values(|a: &str| a@)) {
            Some(a) => taken.1 is Some && leaves(taken.1->Some_0@) == value_of(leaves(entries@), a),
            None => taken.1 is None,
        },
{
    let ghost s = leaves(entries@);
    let ghost al = aliases@.map_values(|a: &str| a@);
    let mut rest = entries;
    let mut chosen: Option<Vec<FlatEntry>> = None;
    let mut i: usize = 0;
    assert(al.take(0) =~= Seq::<Seq<char>>::empty());
    while i < aliases.len()
        invariant
            i <= al.len(),
            al == aliases@.map_values(|a: &str| a@),
            s == s,
            leaves(rest@) == without_all(s, al.take(i as int)),
            match first_present(s, al.take(i as int)) {
                Some(a) => chosen is Some && leaves(chosen->Some_0@) == value_of(s, a),
                None => chosen is None,
            },
        decreases al.len() - i,
    {
        let alias = aliases[i];
        assert(al[i as int] == alias@);
        let ghost prefix = al.take(i as int);
        proof {
            assert(al.take(i + 1) =~= prefix.push(alias@));
            lemma_without_all_push(s, prefix, alias@);
            lemma_first_present_push(s, prefix, alias@);
            lemma_under_without_all(s, prefix, alias@);
        }
        let (kept, removed) = split_key(rest, alias);
        rest = kept;
        if chosen.is_none() && removed.len() > 0 {
            proof {
                let x = views(removed@)[0];
                assert(leaves(removed@).contains(x));
                assert(under(without_all(s, prefix), alias@).contains(x));
                assert(!prefix.contains(alias@));
                assert(under(s, alias@).contains(x));
                assert(has_key(s, alias@));
            }
            proof {
                assert forall|e: EntryView| #[trigger] leaves(removed@).contains(e) implies e.0.len() > 0 by {
                    assert(under(without_all(s, prefix), alias@).contains(e));
                }
            }
            chosen = Some(drop_top(removed));
        } else {
            proof {
                if chosen.is_none() {
                    assert(views(removed@) =~= Seq::<EntryView>::empty());
                    assert(leaves(removed@) =~= Set::<EntryView>::empty());
                    if has_key(s, alias@) {
                        let e = choose|e: EntryView| #[trigger] under(s, alias@).contains(e);
                        if prefix.contains(alias@) {
                            let k = choose|k: int| 0 <= k < prefix.len() && prefix[k] == alias@;
                            lemma_first_present_contains(s, prefix, k);
                        } else {
                            assert(under(without_all(s, prefix), alias@).contains(e));
                        }
                    }
                }
            }
        }
        i += 1;
    }
    assert(al.take(i as int) =~= al);
    (rest, chosen)
}

proof fn lemma_first_present_contains(s: Set<EntryView>, q: Seq<Seq<char>>, k: int)
    requires
        0 <= k < q.len(),
        has_key(s, q[k]),
    ensures
        first_present(s, q) is Some,
    decreases q.len(),
{
    if k > 0 && !has_key(s, q[0]) {
        assert(q.drop_first()[k - 1] == q[k]);
        lemma_first_present_contains(s, q.drop_first(), k - 1);
    }
}

/// A path of keys written out.
fn key_path(keys: &Vec<&str>) -> (path: Vec<String>)
    ensures
        path_view(path@) == keys@.map_values(|k: &str| k@),
{
    let ghost want = keys@.map_values(|k: &str| k@);
    let mut path: Vec<String> = Vec::new();
    let mut i: usize = 0;
    assert(path_view(path@) =~= want.take(0));
    while i < keys.len()
        invariant
            i <= keys@.len(),
            want == keys@.map_values(|k: &str| k@),
            path_view(path@) == want.take(i as int),
        decreases keys@.len() - i,
    {
        let ghost before = path@;
        let key = keys[i].to_owned();
        path.push(key);
        assert(path_view(path@) =~= path_view(before).push(key@));
        assert(want.take(i + 1) =~= want.take(i as int).push(key@));
        i += 1;
    }
    assert(want.take(i as int) =~= want);
    path
}

/// Moves the value of the first alias present to `target`, unless a setting
/// is already there; every alias is removed.
fn move_legacy_value(entries: Vec<FlatEntry>, aliases: &Vec<&str>, target: &Vec<&str>) -> (moved: Vec<FlatEntry>)
    ensures
        leaves(moved@) == move_legacy(
            leaves(entries@),
            aliases@.map_values(|a: &str| a@),
            target@.map_values(|k: &str| k@),
        ),
{
    let (rest, taken) = take_legacy_value(entries, aliases);
    match taken {
        Some(value) => {
            let path = key_path(target);
            place_leaves(rest, &path, value)
        },
        None => rest,
    }
}

/// Whether anything is set under the top-level key `key`.
fn has_top_key(entries: &Vec<FlatEntry>, key: &str) -> (found: bool)
    ensures
        found == has_key(leaves(entries@), key@),
{
    let mut i: usize = 0;
    while i < entries.len()
        invariant
            i <= entries@.len(),
            forall|j: int| 0 <= j < i ==> !({
                let e = #[trigger] views(entries@)[j];
                e.0.len() > 0 && e.0[0] == key@
            }),
        decreases entries@.len() - i,
    {
        assert(views(entries@)[i as int] == entry_view(entries@[i as int]));
        if top_key_is(&entries[i].path, key) {
            proof {
                let e = views(entries@)[i as int];
                assert(leaves(entries@).contains(e));
                assert(under(leaves(entries@), key@).contains(e));
            }
            return true;
        }
        i += 1;
    }
    proof {
        if has_key(leaves(entries@), key@) {
            let e = choose|e: EntryView| #[trigger] under(leaves(entries@), key@).contains(e);
            assert(leaves(entries@).contains(e));
            let j = choose|j: int| 0 <= j < views(entries@).len() && views(entries@)[j] == e;
            assert(views(entries@)[j] == e);
        }
    }
    false
}

/// Whether the value under the top-level key `key` is a table.
fn has_table_under(entries: &Vec<FlatEntry>, key: &str) -> (found: bool)
    ensures
        found == table_under(leaves(entries@), key@),
{
    let mut i: usize = 0;
    while i < entries.len()
        invariant
            i <= entries@.len(),
            forall|j: int| 0 <= j < i ==> !({
                let e = #[trigger] views(entries@)[j];
                e.0.len() > 0 && e.0[0] == key@ && (e.0.len() > 1 || e.1 is EmptyTable)
            }),
        decreases entries@.len() - i,
    {
        let entry = &entries[i];
        assert(views(entries@)[i as int] == entry_view(*entry));
        let empty = match entry.leaf {
            Leaf::EmptyTable => true,
            _ => false,
        };
        if top_key_is(&entry.path, key) && (entry.path.len() > 1 || empty) {
            proof {
                let e = views(entries@)[i as int];
                assert(leaves(entries@).contains(e));
                assert(under(leaves(entries@), key@).contains(e));
            }
            return true;
        }
        i += 1;
    }
    proof {
        if table_under(leaves(entries@), key@) {
            let e = choose|e: EntryView| #[trigger] under(leaves(entries@), key@).contains(e)
                && (e.0.len() > 1 || e.1 is EmptyTable);
            assert(leaves(entries@).contains(e));
            let j = choose|j: int| 0 <= j < views(entries@).len() && views(entries@)[j] == e;
            assert(views(entries@)[j] == e);
        }
    }
    false
}

/// A file of one leaf at the place of the value itself.
fn single_leaf(leaf: Leaf) -> (single: Vec<FlatEntry>)
    ensures
        leaves(single@) == set![(Seq::<Seq<char>>::empty(), leaf_view(leaf))],
{
    let ghost v = leaf_view(leaf);
    let single = vec![FlatEntry { path: Vec::new(), leaf }];
    assert(path_view(single@[0].path@) =~= Seq::<Seq<char>>::empty());
    assert(views(single@) =~= seq![(Seq::<Seq<char>>::empty(), v)]);
    assert(leaves(single@) =~= set![(Seq::<Seq<char>>::empty(), v)]) by {
        assert(views(single@)[0] == (Seq::<Seq<char>>::empty(), v));
    }
    single
}

/// Merges the leaves of `incoming` into `entries`, one after the other.
fn merge_entries(entries: Vec<FlatEntry>, incoming: &Vec<FlatEntry>) -> (merged: Vec<FlatEntry>)
    ensures
        leaves(merged@) == merge_all(leaves(entries@), views(incoming@)),
{
    let ghost start = leaves(entries@);
    let ghost order = views(incoming@);
    let mut acc = entries;
    let mut i: usize = 0;
    assert(order.take(0) =~= Seq::<EntryView>::empty());
    while i < incoming.len()
        invariant
            i <= incoming@.len(),
            order == views(incoming@),
            leaves(acc@) == merge_all(start, order.take(i as int)),
        decreases incoming@.len() - i,
    {
        let entry = &incoming[i];
        assert(order[i as int] == entry_view(*entry));
        assert(order.take(i + 1).drop_last() =~= order.take(i as int));
        assert(order.take(i + 1).last() == entry_view(*entry));
        if entry.path.len() > 0 {
            let path = clone_strings(&entry.path);
            let single = single_leaf(clone_leaf(&entry.leaf));
            acc = place_leaves(acc, &path, single);
        }
        i += 1;
    }
    assert(order.take(i as int) =~= order);
    acc
}

/// The default providers, with AniList added when asked for.
fn provider_list(with_anilist: bool) -> (list: Vec<String>)
    ensures
        list@.map_values(|s: String| s@) == default_provider_list(with_anilist),
{
    let names = if with_anilist {
        vec!["local", "tmdb", "bangumi", "musicbrainz", "openlibrary", "anilist"]
    } else {
        vec!["local", "tmdb", "bangumi", "musicbrainz", "openlibrary"]
    };
    let list = key_path(&names);
    assert(names@.map_values(|k: &str| k@) =~= default_provider_list(with_anilist));
    assert(list@.map_values(|s: String| s@) =~= path_view(list@));
    list
}

/// The moves of legacy top-level keys, in order.
fn apply_legacy_moves(entries: Vec<FlatEntry>) -> (moved: Vec<FlatEntry>)
    ensures
        leaves(moved@) == legacy_moves(leaves(entries@)),
{
    let aliases = vec!["api_key", "tmdb_api_token"];
    let target = vec!["providers", "tmdb", "api_token"];
    assert(aliases@.map_values(|a: &str| a@) =~= seq!["api_key"@, "tmdb_api_token"@]);
    assert(target@.map_values(|k: &str| k@) =~= p3("providers"@, "tmdb"@, "api_token"@));
    let e1 = move_legacy_value(entries, &aliases, &target);
    let aliases = vec!["tmdb_base_url"];
    let target = vec!["providers", "tmdb", "base_url"];
    assert(aliases@.map_values(|a: &str| a@) =~= seq!["tmdb_base_url"@]);
    assert(target@.map_values(|k: &str| k@) =~= p3("providers"@, "tmdb"@, "base_url"@));
    let e2 = move_legacy_value(e1, &aliases, &target);
    let aliases = vec!["bangumi_base_url"];
    let target = vec!["providers", "bangumi", "base_url"];
    assert(aliases@.map_values(|a: &str| a@) =~= seq!["bangumi_base_url"@]);
    assert(target@.map_values(|k: &str| k@) =~= p3("providers"@, "bangumi"@, "base_url"@));
    let e3 = move_legacy_value(e2, &aliases, &target);
    let aliases = vec!["musicbrainz_base_url"];
    let target = vec!["providers", "musicbrainz", "base_url"];
    assert(aliases@.map_values(|a: &str| a@) =~= seq!["musicbrainz_base_url"@]);
    assert(target@.map_values(|k: &str| k@) =~= p3("providers"@, "musicbrainz"@, "base_url"@));
    let e4 = move_legacy_value(e3, &aliases, &target);
    let aliases = vec!["openlibrary_base_url"];
    let target = vec!["providers", "openlibrary", "base_url"];
    assert(aliases@.map_values(|a: &str| a@) =~= seq!["openlibrary_base_url"@]);
    assert(target@.map_values(|k: &str| k@) =~= p3("providers"@, "openlibrary"@, "base_url"@));
    let e5 = move_legacy_value(e4, &aliases, &target);
    let aliases = vec!["openlibrary_cover_base_url"];
    let target = vec!["providers", "openlibrary", "cover_base_url"];
    assert(aliases@.map_values(|a: &str| a@) =~= seq!["openlibrary_cover_base_url"@]);
    assert(target@.map_values(|k: &str| k@) =~= p3("providers"@, "openlibrary"@, "cover_base_url"@));
    let e6 = move_legacy_value(e5, &aliases, &target);
    let aliases = vec!["anilist_endpoint"];
    let target = vec!["providers", "anilist", "base_url"];
    assert(aliases@.map_values(|a: &str| a@) =~= seq!["anilist_endpoint"@]);
    assert(target@.map_values(|k: &str| k@) =~= p3("providers"@, "anilist"@, "base_url"@));
    let e7 = move_legacy_value(e6, &aliases, &target);
    let aliases = vec!["anilist_token", "anilist_access_token"];
    let target = vec!["providers", "anilist", "access_token"];
    assert(aliases@.map_values(|a: &str| a@) =~= seq!["anilist_token"@, "anilist_access_token"@]);
    assert(target@.map_values(|k: &str| k@) =~= p3("providers"@, "anilist"@, "access_token"@));
    let e8 = move_legacy_value(e7, &aliases, &target);
    e8
}

/// Rewrites a legacy configuration file into the current layout: old
/// top-level keys move to their nested places unless a nested setting is
/// given, the AniList switch becomes the list of enabled providers, the
/// Bangumi token is dropped, and the secret references table moves its
/// entries to the provider settings.
///
/// `anilist_enabled` is the `anilist_enabled` value read as a boolean; it is
/// consulted only where that key is set and no provider list is given, and
/// an error there is returned as it is.
pub fn normalize_legacy_file(entries: Vec<FlatEntry>, anilist_enabled: Result<bool, String>) -> (normalized: Result<Vec<FlatEntry>, String>)
    ensures
        match anilist_step(legacy_moves(leaves(entries@)), anilist_enabled) {
            Err(m) => normalized == Err::<Vec<FlatEntry>, String>(m),
            Ok(s) => normalized is Ok && references_step(
                without(s, "bangumi_access_token"@),
                leaves(normalized->Ok_0@),
            ),
        },
{
    let moved = apply_legacy_moves(entries);
    let ghost s1 = leaves(moved@);
    let switch = vec!["anilist_enabled"];
    assert(switch@.map_values(|a: &str| a@) =~= seq!["anilist_enabled"@]);
    let (rest, taken) = take_legacy_value(moved, &switch);
    proof {
        reveal_with_fuel(first_present, 2);
        reveal_with_fuel(without_all, 2);
        assert(seq!["anilist_enabled"@].drop_first() =~= Seq::<Seq<char>>::empty());
    }
    let s2 = if taken.is_some() && !has_top_key(&rest, "enabled_providers") {
        match anilist_enabled {
            Ok(b) => {
                let target_keys = vec!["enabled_providers"];
                let target = key_path(&target_keys);
                assert(target_keys@.map_values(|k: &str| k@) =~= p1("enabled_providers"@));
                let list = provider_list(b);
                let single = single_leaf(Leaf::Providers(list));
                place_leaves(rest, &target, single)
            },
            Err(m) => {
                return Err(m);
            },
        }
    } else {
        rest
    };
    let s3 = split_key(s2, "bangumi_access_token").0;
    if !has_table_under(&s3, "secret_references") {
        return Ok(s3);
    }
    let ghost before = leaves(s3@);
    let (kept, references) = split_key(s3, "secret_references");
    proof {
        assert forall|e: EntryView| #[trigger] leaves(references@).contains(e) implies e.0.len() > 0 by {
            assert(under(before, "secret_references"@).contains(e));
        }
    }
    let inner = drop_top(references);
    let inner = split_key(inner, "bangumi_access_token").0;
    let aliases = vec!["tmdb_api_token"];
    let target = vec!["providers", "tmdb", "api_token_env"];
    assert(aliases@.map_values(|a: &str| a@) =~= seq!["tmdb_api_token"@]);
    assert(target@.map_values(|k: &str| k@) =~= p3("providers"@, "tmdb"@, "api_token_env"@));
    let inner = move_legacy_value(inner, &aliases, &target);
    let aliases = vec!["anilist_access_token"];
    let target = vec!["providers", "anilist", "access_token_env"];
    assert(aliases@.map_values(|a: &str| a@) =~= seq!["anilist_access_token"@]);
    assert(target@.map_values(|k: &str| k@) =~= p3("providers"@, "anilist"@, "access_token_env"@));
    let inner = move_legacy_value(inner, &aliases, &target);
    let merged = merge_entries(kept, &inner);
    proof {
        assert(views(inner@).to_set() == references_moved(before));
        assert(leaves(merged@) == merge_all(without(before, "secret_references"@), views(inner@)));
    }
    Ok(merged)
}

/// The dotted name of a path: keys joined by dots, where an empty prefix
/// takes no dot.
pub open spec fn dotted(p: PathView) -> Seq<char>
    decreases p.len(),
{
    if p.len() == 0 {
        Seq::empty()
    } else {
        let d = dotted(p.drop_last());
        if d.len() == 0 {
            p.last()
        } else {
            d + "."@ + p.last()
        }
    }
}

/// The dotted names of the settings of a file; empty tables name none.
pub open spec fn field_path_set(s: Set<EntryView>) -> Set<Seq<char>> {
    s.filter(|e: EntryView| !(e.1 is EmptyTable)).map(|e: EntryView| dotted(e.0))
}

/// The dotted names of a list of leaves, in order.
pub open spec fn field_list(v: Seq<EntryView>) -> Seq<Seq<char>>
    decreases v.len(),
{
    if v.len() == 0 {
        Seq::empty()
    } else if v.last().1 is EmptyTable {
        field_list(v.drop_last())
    } else {
        field_list(v.drop_last()).push(dotted(v.last().0))
    }
}

proof fn lemma_field_list(v: Seq<EntryView>)
    ensures
        field_list(v).to_set() == field_path_set(v.to_set()),
    decreases v.len(),
{
    if v.len() == 0 {
        assert(v.to_set() =~= Set::<EntryView>::empty());
        assert(field_path_set(v.to_set()) =~= Set::<Seq<char>>::empty());
        assert(field_list(v).to_set() =~= Set::<Seq<char>>::empty());
    } else {
        let init = v.drop_last();
        lemma_field_list(init);
        lemma_to_set_drop_last(v);
        let x = v.last();
        if x.1 is EmptyTable {
            assert(field_path_set(v.to_set()) =~= field_path_set(init.to_set())) by {
                assert forall|d: Seq<char>| #[trigger] field_path_set(v.to_set()).contains(d) implies
                    field_path_set(init.to_set()).contains(d) by {
                    let e = choose|e: EntryView| v.to_set().contains(e) && !(e.1 is EmptyTable) && dotted(e.0) == d;
                    assert(init.to_set().filter(|e: EntryView| !(e.1 is EmptyTable)).contains(e));
                }
                assert forall|d: Seq<char>| #[trigger] field_path_set(init.to_set()).contains(d) implies
                    field_path_set(v.to_set()).contains(d) by {
                    let e = choose|e: EntryView| init.to_set().contains(e) && !(e.1 is EmptyTable) && dotted(e.0) == d;
                    assert(v.to_set().filter(|e: EntryView| !(e.1 is EmptyTable)).contains(e));
                }
            }
        } else {
            assert(field_list(v).drop_last() =~= field_list(init));
            lemma_to_set_drop_last(field_list(v));
            assert(field_path_set(v.to_set()) =~= field_path_set(init.to_set()).insert(dotted(x.0))) by {
                assert forall|d: Seq<char>| #[trigger] field_path_set(v.to_set()).contains(d) implies
                    field_path_set(init.to_set()).insert(dotted(x.0)).contains(d) by {
                    let e = choose|e: EntryView| v.to_set().contains(e) && !(e.1 is EmptyTable) && dotted(e.0) == d;
                    if e != x {
                        assert(init.to_set().filter(|e: EntryView| !(e.1 is EmptyTable)).contains(e));
                    }
                }
                assert forall|d: Seq<char>| #[trigger] field_path_set(init.to_set()).insert(dotted(x.0)).contains(d) implies
                    field_path_set(v.to_set()).contains(d) by {
                    if d == dotted(x.0) {
                        assert(v.to_set().filter(|e: EntryView| !(e.1 is EmptyTable)).contains(x));
                    } else {
                        let e = choose|e: EntryView| init.to_set().contains(e) && !(e.1 is EmptyTable) && dotted(e.0) == d;
                        assert(v.to_set().filter(|e: EntryView| !(e.1 is EmptyTable)).contains(e));
                    }
                }
            }
        }
    }
}

/// The dotted name of a path.
fn dotted_path(path: &Vec<String>) -> (name: String)
    ensures
        name@ == dotted(path_view(path@)),
{
    let ghost p = path_view(path@);
    let mut name = String::new();
    let mut i: usize = 0;
    assert(p.take(0) =~= Seq::<Seq<char>>::empty());
    while i < path.len()
        invariant
            i <= path@.len(),
            p == path_view(path@),
            name@ == dotted(p.take(i as int)),
        decreases path@.len() - i,
    {
        assert(p.take(i + 1).drop_last() =~= p.take(i as int));
        assert(p.take(i + 1).last() == path@[i as int]@);
        if name.as_str().is_empty() {
            name = path[i].clone();
        } else {
            let with_dot = concat_str(name.as_str(), ".");
            name = concat_str(with_dot.as_str(), path[i].as_str());
        }
        i += 1;
    }
    assert(p.take(i as int) =~= p);
    name
}

/// The dotted names of the settings of a file, as the file's own fields.
pub fn field_paths(entries: &Vec<FlatEntry>) -> (fields: Vec<String>)
    ensures
        fields@.map_values(|f: String| f@).to_set() == field_path_set(leaves(entries@)),
{
    let ghost v = views(entries@);
    let mut fields: Vec<String> = Vec::new();
    let mut i: usize = 0;
    assert(v.take(0) =~= Seq::<EntryView>::empty());
    assert(fields@.map_values(|f: String| f@) =~= field_list(v.take(0)));
    while i < entries.len()
        invariant
            i <= entries@.len(),
            v == views(entries@),
            fields@.map_values(|f: String| f@) == field_list(v.take(i as int)),
        decreases entries@.len() - i,
    {
        let entry = &entries[i];
        assert(v.take(i + 1).drop_last() =~= v.take(i as int));
        assert(v.take(i + 1).last() == entry_view(*entry));
        let empty = match entry.leaf {
            Leaf::EmptyTable => true,
            _ => false,
        };
        if !empty {
            let ghost before = fields@;
            let name = dotted_path(&entry.path);
            fields.push(name);
            assert(fields@.map_values(|f: String| f@) =~= before.map_values(|f: String| f@).push(name@));
        }
        i += 1;
    }
    assert(v.take(i as int) =~= v);
    proof {
        lemma_field_list(v);
    }
    fields
}

/// The top-level keys of the legacy layout.
pub open spec fn legacy_keys() -> Seq<Seq<char>> {
    seq!["api_key"@, "tmdb_api_token"@, "tmdb_base_url"@, "bangumi_base_url"@, "musicbrainz_base_url"@, "openlibrary_base_url"@, "openlibrary_cover_base_url"@, "anilist_endpoint"@, "anilist_token"@, "anilist_access_token"@, "anilist_enabled"@, "bangumi_access_token"@]
}

proof fn lemma_without_absent(s: Set<EntryView>, key: Seq<char>)
    requires
        !has_key(s, key),
    ensures
        without(s, key) == s,
{
    assert forall|e: EntryView| #[trigger] s.contains(e) implies without(s, key).contains(e) by {
        if e.0.len() > 0 && e.0[0] == key {
            assert(under(s, key).contains(e));
        }
    }
    assert(without(s, key) =~= s);
}

proof fn lemma_move_absent(s: Set<EntryView>, aliases: Seq<Seq<char>>, target: PathView)
    requires
        forall|k: int| 0 <= k < aliases.len() ==> !has_key(s, #[trigger] aliases[k]),
    ensures
        first_present(s, aliases) is None,
        without_all(s, aliases) == s,
        move_legacy(s, aliases, target) == s,
    decreases aliases.len(),
{
    if aliases.len() > 0 {
        assert(!has_key(s, aliases[0]));
        lemma_without_absent(s, aliases[0]);
        assert forall|k: int| 0 <= k < aliases.drop_first().len() implies !has_key(s, #[trigger] aliases.drop_first()[k]) by {
            assert(aliases.drop_first()[k] == aliases[k + 1]);
        }
        lemma_move_absent(s, aliases.drop_first(), target);
    }
}

/// A file without legacy keys, whose `secret_references` is not a table,
/// comes out of the migration unchanged, whatever the AniList switch would
/// read as.
pub proof fn law_current_file_is_unchanged(s: Set<EntryView>, enabled: Result<bool, String>)
    requires
        forall|k: int| 0 <= k < legacy_keys().len() ==> !has_key(s, #[trigger] legacy_keys()[k]),
        !table_under(s, "secret_references"@),
    ensures
        legacy_moves(s) == s,
        anilist_step(legacy_moves(s), enabled) == Ok::<Set<EntryView>, String>(s),
        without(s, "bangumi_access_token"@) == s,
        references_step(without(s, "bangumi_access_token"@), s),
{
    assert(!has_key(s, "api_key"@)) by { assert(legacy_keys()[0] == "api_key"@); }
    assert(!has_key(s, "tmdb_api_token"@)) by { assert(legacy_keys()[1] == "tmdb_api_token"@); }
    assert(!has_key(s, "tmdb_base_url"@)) by { assert(legacy_keys()[2] == "tmdb_base_url"@); }
    assert(!has_key(s, "bangumi_base_url"@)) by { assert(legacy_keys()[3] == "bangumi_base_url"@); }
    assert(!has_key(s, "musicbrainz_base_url"@)) by { assert(legacy_keys()[4] == "musicbrainz_base_url"@); }
    assert(!has_key(s, "openlibrary_base_url"@)) by { assert(legacy_keys()[5] == "openlibrary_base_url"@); }
    assert(!has_key(s, "openlibrary_cover_base_url"@)) by { assert(legacy_keys()[6] == "openlibrary_cover_base_url"@); }
    assert(!has_key(s, "anilist_endpoint"@)) by { assert(legacy_keys()[7] == "anilist_endpoint"@); }
    assert(!has_key(s, "anilist_token"@)) by { assert(legacy_keys()[8] == "anilist_token"@); }
    assert(!has_key(s, "anilist_access_token"@)) by { assert(legacy_keys()[9] == "anilist_access_token"@); }
    assert(!has_key(s, "anilist_enabled"@)) by { assert(legacy_keys()[10] == "anilist_enabled"@); }
    assert(!has_key(s, "bangumi_access_token"@)) by { assert(legacy_keys()[11] == "bangumi_access_token"@); }
    lemma_move_absent(s, seq!["api_key"@, "tmdb_api_token"@], p3("providers"@, "tmdb"@, "api_token"@));
    lemma_move_absent(s, seq!["tmdb_base_url"@], p3("providers"@, "tmdb"@, "base_url"@));
    lemma_move_absent(s, seq!["bangumi_base_url"@], p3("providers"@, "bangumi"@, "base_url"@));
    lemma_move_absent(s, seq!["musicbrainz_base_url"@], p3("providers"@, "musicbrainz"@, "base_url"@));
    lemma_move_absent(s, seq!["openlibrary_base_url"@], p3("providers"@, "openlibrary"@, "base_url"@));
    lemma_move_absent(s, seq!["openlibrary_cover_base_url"@], p3("providers"@, "openlibrary"@, "cover_base_url"@));
    lemma_move_absent(s, seq!["anilist_endpoint"@], p3("providers"@, "anilist"@, "base_url"@));
    lemma_move_absent(s, seq!["anilist_token"@, "anilist_access_token"@], p3("providers"@, "anilist"@, "access_token"@));
    assert(legacy_moves(s) == s);
    lemma_without_absent(s, "anilist_enabled"@);
    lemma_without_absent(s, "bangumi_access_token"@);
}

} // verus!
