//! Decisions of a metadata search: which providers are asked, how their
//! answers are gathered, and which candidates describe the same work.
//!
//! Providers and candidates are seen through the few plain values the
//! decisions read; the providers themselves, and the awaiting of their
//! answers, stay with the caller.
use vstd::prelude::*;

use crate::job_model::JobMediaKind;
use crate::text::{chars_of, is_whitespace, is_whitespace_char, push_char, str_equal};

verus! {

/// A provider as a search sees it.
#[derive(Debug, Clone, Copy, PartialEq, Eq, Structural)]
pub struct ProviderTraits {
    /// Whether the provider serves the media kind searched for.
    pub supports_kind: bool,
    /// Whether the provider needs the network.
    pub requires_network: bool,
}

/// Whether a search asks a provider.
pub open spec fn asked(p: ProviderTraits, offline: bool) -> bool {
    p.supports_kind && (!offline || !p.requires_network)
}

/// The positions of the providers asked, in order.
pub open spec fn queried_spec(p: Seq<ProviderTraits>, offline: bool) -> Seq<usize>
    decreases p.len(),
{
    if p.len() == 0 {
        Seq::empty()
    } else {
        let rest = queried_spec(p.drop_last(), offline);
        if asked(p.last(), offline) {
            rest.push((p.len() - 1) as usize)
        } else {
            rest
        }
    }
}

/// Whether offline mode leaves out a provider that serves the kind.
pub open spec fn skips_network(p: Seq<ProviderTraits>, offline: bool) -> bool {
    offline && exists|i: int| 0 <= i < p.len() && (#[trigger] p[i]).supports_kind && p[i].requires_network
}

/// The providers a search asks, and whether offline mode left some out.
pub struct SearchPlan {
    pub queried: Vec<usize>,
    pub skipped_network: bool,
}

/// Plans a search: a provider is asked when it serves the kind and, in
/// offline mode, needs no network.
pub fn plan_search(providers: &Vec<ProviderTraits>, offline: bool) -> (plan: SearchPlan)
    ensures
        plan.queried@ == queried_spec(providers@, offline),
        plan.skipped_network == skips_network(providers@, offline),
{
    let ghost p = providers@;
    let mut queried: Vec<usize> = Vec::new();
    let mut skipped = false;
    let mut i: usize = 0;
    assert(p.take(0) =~= Seq::<ProviderTraits>::empty());
    while i < providers.len()
        invariant
            i <= p.len(),
            p == providers@,
            queried@ == queried_spec(p.take(i as int), offline),
            skipped == (offline && exists|k: int| 0 <= k < i && (#[trigger] p[k]).supports_kind && p[k].requires_network),
        decreases p.len() - i,
    {
        let provider = providers[i];
        assert(p.take(i + 1).drop_last() =~= p.take(i as int));
        assert(p.take(i + 1).last() == provider);
        if provider.supports_kind && (!offline || !provider.requires_network) {
            queried.push(i);
        }
        if offline && provider.supports_kind && provider.requires_network {
            skipped = true;
        }
        i += 1;
    }
    assert(p.take(i as int) =~= p);
    SearchPlan { queried, skipped_network: skipped }
}

/// A candidate found by a provider: its position in the caller's list of
/// candidates, and its media kind.
#[derive(Debug, Clone, Copy, PartialEq, Eq, Structural)]
pub struct Hit {
    pub candidate: usize,
    pub kind: JobMediaKind,
}

/// A warning of a search, by code and message.
#[derive(Debug)]
pub struct Warning {
    pub code: String,
    pub message: String,
}

pub open spec fn warning_view(w: Warning) -> (Seq<char>, Seq<char>) {
    (w.code@, w.message@)
}

pub open spec fn warning_views(w: Seq<Warning>) -> Seq<(Seq<char>, Seq<char>)> {
    w.map_values(|x: Warning| warning_view(x))
}

/// Why a search found nothing.
#[derive(Debug)]
pub enum SearchFailure {
    /// No provider failed and none found a candidate.
    NoCandidates,
    /// Every warning's message, in order.
    AllProvidersFailed(Vec<String>),
}

/// The candidates of the kind searched for, in the providers' order.
pub open spec fn hits_of_kind(hits: Seq<Hit>, kind: JobMediaKind) -> Seq<usize>
    decreases hits.len(),
{
    if hits.len() == 0 {
        Seq::empty()
    } else {
        let rest = hits_of_kind(hits.drop_last(), kind);
        if hits.last().kind == kind {
            rest.push(hits.last().candidate)
        } else {
            rest
        }
    }
}

/// The candidates of the kind searched for, over all answers in order.
pub open spec fn found_spec(results: Seq<Result<Vec<Hit>, String>>, kind: JobMediaKind) -> Seq<usize>
    decreases results.len(),
{
    if results.len() == 0 {
        Seq::empty()
    } else {
        let rest = found_spec(results.drop_last(), kind);
        match results.last() {
            Ok(hits) => rest + hits_of_kind(hits@, kind),
            Err(_) => rest,
        }
    }
}

/// One warning per failed provider, in order.
pub open spec fn failure_warnings(results: Seq<Result<Vec<Hit>, String>>) -> Seq<(Seq<char>, Seq<char>)>
    decreases results.len(),
{
    if results.len() == 0 {
        Seq::empty()
    } else {
        let rest = failure_warnings(results.drop_last());
        match results.last() {
            Ok(_) => rest,
            Err(m) => rest.push(("provider_search_failed"@, m@)),
        }
    }
}

/// The warnings of a search: offline mode first, then the failures.
pub open spec fn warnings_spec(results: Seq<Result<Vec<Hit>, String>>, skipped_network: bool) -> Seq<(Seq<char>, Seq<char>)> {
    let offline = if skipped_network {
        seq![("offline_provider_skipped"@, "offline mode skipped one or more network providers"@)]
    } else {
        Seq::empty()
    };
    offline + failure_warnings(results)
}

/// The candidates found and the warnings of a search.
#[derive(Debug)]
pub struct Gathered {
    pub candidates: Vec<usize>,
    pub warnings: Vec<Warning>,
}

fn warning(code: &str, message: &str) -> (w: Warning)
    ensures
        warning_view(w) == (code@, message@),
{
    Warning { code: code.to_owned(), message: message.to_owned() }
}

/// Gathers the providers' answers: the candidates of the kind searched for,
/// and a warning for offline mode and for each provider that failed. With
/// no candidate, the search fails: with every warning's message where there
/// are warnings, and with `NoCandidates` where there are none.
pub fn gather_results(results: &Vec<Result<Vec<Hit>, String>>, kind: JobMediaKind, skipped_network: bool) -> (gathered: Result<Gathered, SearchFailure>)
    ensures
        found_spec(results@, kind).len() > 0 ==> (gathered matches Ok(g) && g.candidates@ == found_spec(results@, kind)
            && warning_views(g.warnings@) == warnings_spec(results@, skipped_network)),
        found_spec(results@, kind).len() == 0 && warnings_spec(results@, skipped_network).len() == 0
            ==> gathered matches Err(SearchFailure::NoCandidates),
        found_spec(results@, kind).len() == 0 && warnings_spec(results@, skipped_network).len() > 0
            ==> (gathered matches Err(SearchFailure::AllProvidersFailed(m))
            && m@.map_values(|s: String| s@) == warnings_spec(results@, skipped_network).map_values(|w: (Seq<char>, Seq<char>)| w.1)),
{
    let ghost r = results@;
    let mut candidates: Vec<usize> = Vec::new();
    let mut warnings: Vec<Warning> = Vec::new();
    if skipped_network {
        warnings.push(warning("offline_provider_skipped", "offline mode skipped one or more network providers"));
    }
    let ghost first = warning_views(warnings@);
    assert(first + failure_warnings(r.take(0)) =~= first);
    assert(r.take(0) =~= Seq::<Result<Vec<Hit>, String>>::empty());
    let mut i: usize = 0;
    while i < results.len()
        invariant
            i <= r.len(),
            r == results@,
            candidates@ == found_spec(r.take(i as int), kind),
            warning_views(warnings@) == first + failure_warnings(r.take(i as int)),
            first == warnings_spec(Seq::empty(), skipped_network),
        decreases r.len() - i,
    {
        assert(r.take(i + 1).drop_last() =~= r.take(i as int));
        assert(r.take(i + 1).last() == results[i as int]);
        match &results[i] {
            Ok(hits) => {
                let ghost before = candidates@;
                let mut j: usize = 0;
                assert(hits@.take(0) =~= Seq::<Hit>::empty());
                assert(before + hits_of_kind(hits@.take(0), kind) =~= before);
                while j < hits.len()
                    invariant
                        j <= hits@.len(),
                        candidates@ == before + hits_of_kind(hits@.take(j as int), kind),
                    decreases hits@.len() - j,
                {
                    let hit = hits[j];
                    assert(hits@.take(j + 1).drop_last() =~= hits@.take(j as int));
                    assert(hits@.take(j + 1).last() == hit);
                    if hit.kind == kind {
                        candidates.push(hit.candidate);
                        assert(candidates@ =~= before + hits_of_kind(hits@.take(j + 1), kind));
                    }
                    j += 1;
                }
                assert(hits@.take(j as int) =~= hits@);
            },
            Err(message) => {
                let ghost before = warning_views(warnings@);
                warnings.push(warning("provider_search_failed", message.as_str()));
                assert(warning_views(warnings@) =~= before.push(("provider_search_failed"@, message@)));
            },
        }
        i += 1;
    }
    assert(r.take(i as int) =~= r);
    assert(first + failure_warnings(r) =~= warnings_spec(r, skipped_network));
    if candidates.len() == 0 {
        if warnings.len() == 0 {
            return Err(SearchFailure::NoCandidates);
        }
        let mut messages: Vec<String> = Vec::new();
        let mut k: usize = 0;
        while k < warnings.len()
            invariant
                k <= warnings@.len(),
                messages@.map_values(|s: String| s@) == warning_views(warnings@).take(k as int).map_values(|w: (Seq<char>, Seq<char>)| w.1),
            decreases warnings@.len() - k,
        {
            let ghost before = messages@;
            let message = warnings[k].message.clone();
            assert(warning_views(warnings@)[k as int] == warning_view(warnings@[k as int]));
            assert(message@ == warnings@[k as int].message@);
            messages.push(message);
            assert(warning_views(warnings@).take(k + 1) =~= warning_views(warnings@).take(k as int).push(warning_view(warnings@[k as int])));
            assert(messages@.map_values(|s: String| s@) =~= before.map_values(|s: String| s@).push(message@));
            assert(warning_views(warnings@).take(k + 1).map_values(|w: (Seq<char>, Seq<char>)| w.1) =~= warning_views(
                warnings@,
            ).take(k as int).map_values(|w: (Seq<char>, Seq<char>)| w.1).push(message@));
            k += 1;
        }
        assert(warning_views(warnings@).take(k as int) =~= warning_views(warnings@));
        return Err(SearchFailure::AllProvidersFailed(messages));
    }
    Ok(Gathered { candidates, warnings })
}

/// Adds the warning that the top score was shared, where it was.
pub fn note_selection(warnings: &mut Vec<Warning>, ambiguous: bool)
    ensures
        warning_views(final(warnings)@) == if ambiguous {
            warning_views(old(warnings)@).push((
                "ambiguous_candidates"@,
                "multiple candidates share the top score; provider order was used deterministically"@,
            ))
        } else {
            warning_views(old(warnings)@)
        },
{
    if ambiguous {
        let ghost before = warning_views(warnings@);
        warnings.push(warning(
            "ambiguous_candidates",
            "multiple candidates share the top score; provider order was used deterministically",
        ));
        assert(warning_views(warnings@) =~= before.push((
            "ambiguous_candidates"@,
            "multiple candidates share the top score; provider order was used deterministically"@,
        )));
    }
}

/// The words of a text: its runs of characters that are not white space.
pub open spec fn words(s: Seq<char>) -> Seq<Seq<char>>
    decreases s.len(),
{
    if s.len() == 0 {
        Seq::empty()
    } else {
        let w = words(s.drop_last());
        let c = s.last();
        if is_whitespace_char(c) {
            w
        } else if s.len() >= 2 && !is_whitespace_char(s[s.len() - 2]) {
            w.update(w.len() - 1, w.last().push(c))
        } else {
            w.push(seq![c])
        }
    }
}

/// Words joined by single spaces.
pub open spec fn join_words(w: Seq<Seq<char>>) -> Seq<char>
    decreases w.len(),
{
    if w.len() == 0 {
        Seq::empty()
    } else if w.len() == 1 {
        w[0]
    } else {
        join_words(w.drop_last()) + seq![' '] + w.last()
    }
}

/// What `str::to_lowercase` gives for a text.
pub uninterp spec fn lowercase(s: Seq<char>) -> Seq<char>;

/// Lower-cases a text with `str::to_lowercase`; the contract names the
/// result through `lowercase`.
#[verifier::external_body]
fn to_lowercase(s: &str) -> (lower: String)
    ensures
        lower@ == lowercase(s@),
{
    s.to_lowercase()
}

/// A title as it is compared: its words joined by single spaces, lower-cased.
pub open spec fn normalized_title(s: Seq<char>) -> Seq<char> {
    lowercase(join_words(words(s)))
}

proof fn lemma_words_nonempty(s: Seq<char>)
    requires
        s.len() > 0,
        !is_whitespace_char(s.last()),
    ensures
        words(s).len() > 0,
    decreases s.len(),
{
    if s.len() >= 2 && !is_whitespace_char(s[s.len() - 2]) {
        assert(s.drop_last().last() == s[s.len() - 2]);
        lemma_words_nonempty(s.drop_last());
    }
}

proof fn lemma_join_extend(w: Seq<Seq<char>>, c: char)
    requires
        w.len() > 0,
    ensures
        join_words(w.update(w.len() - 1, w.last().push(c))) == join_words(w).push(c),
{
    let w2 = w.update(w.len() - 1, w.last().push(c));
    if w.len() > 1 {
        assert(w2.drop_last() =~= w.drop_last());
        assert(join_words(w2) =~= join_words(w).push(c));
    }
}

/// Collapses the white space of a title and lower-cases it.
pub fn normalize_title(value: &str) -> (normalized: String)
    ensures
        normalized@ == normalized_title(value@),
{
    let chars = chars_of(value);
    let ghost s = value@;
    let mut out = String::new();
    let mut in_word = false;
    let mut any = false;
    let mut i: usize = 0;
    assert(s.take(0) =~= Seq::<char>::empty());
    while i < chars.len()
        invariant
            chars@ == s,
            i <= s.len(),
            out@ == join_words(words(s.take(i as int))),
            in_word == (i > 0 && !is_whitespace_char(s[i - 1])),
            any == (words(s.take(i as int)).len() > 0),
        decreases s.len() - i,
    {
        let c = chars[i];
        let ghost t = s.take(i + 1);
        let ghost w = words(s.take(i as int));
        assert(t.drop_last() =~= s.take(i as int));
        assert(t.last() == c);
        if i > 0 {
            assert(t[t.len() - 2] == s[i - 1]);
        }
        if is_whitespace(c) {
            in_word = false;
        } else if in_word {
            proof {
                lemma_words_nonempty(s.take(i as int));
                assert(s.take(i as int).last() == s[i - 1]);
                lemma_join_extend(w, c);
            }
            push_char(&mut out, c);
        } else {
            if any {
                push_char(&mut out, ' ');
                assert(w.push(seq![c]).drop_last() =~= w);
            }
            push_char(&mut out, c);
            assert(out@ =~= join_words(w.push(seq![c])));
            any = true;
            in_word = true;
        }
        i += 1;
    }
    assert(s.take(i as int) =~= s);
    to_lowercase(out.as_str())
}

/// An identifier of a work at a provider.
#[derive(Debug, Clone)]
pub struct ExternalKey {
    pub namespace: String,
    pub value: String,
}

/// What grouping reads of a search candidate.
#[derive(Debug, Clone)]
pub struct CandidateFields {
    pub provider: String,
    pub external_id: ExternalKey,
    pub title: String,
    pub year: Option<u16>,
    pub sequence: Option<String>,
}

pub open spec fn key_view(k: ExternalKey) -> (Seq<char>, Seq<char>) {
    (k.namespace@, k.value@)
}

pub open spec fn sequence_view(s: Option<String>) -> Option<Seq<char>> {
    match s {
        Some(v) => Some(v@),
        None => None,
    }
}

/// Whether two candidates describe the same work: the same identifier, or
/// the same title with no conflicting year or sequence.
pub open spec fn same_work_spec(l: CandidateFields, r: CandidateFields) -> bool {
    key_view(l.external_id) == key_view(r.external_id) || (normalized_title(l.title@)
        == normalized_title(r.title@) && (l.year is None || r.year is None || l.year == r.year) && (
    sequence_view(l.sequence) is None || sequence_view(r.sequence) is None || sequence_view(l.sequence)
        == sequence_view(r.sequence)))
}

fn keys_equal(a: &ExternalKey, b: &ExternalKey) -> (equal: bool)
    ensures
        equal == (key_view(*a) == key_view(*b)),
{
    str_equal(a.namespace.as_str(), b.namespace.as_str()) && str_equal(a.value.as_str(), b.value.as_str())
}

/// Whether two candidates describe the same work.
pub fn same_work(left: &CandidateFields, right: &CandidateFields) -> (same: bool)
    ensures
        same == same_work_spec(*left, *right),
{
    if keys_equal(&left.external_id, &right.external_id) {
        return true;
    }
    let left_title = normalize_title(left.title.as_str());
    let right_title = normalize_title(right.title.as_str());
    let years = match (left.year, right.year) {
        (Some(a), Some(b)) => a == b,
        _ => true,
    };
    let sequences = match (&left.sequence, &right.sequence) {
        (Some(a), Some(b)) => str_equal(a.as_str(), b.as_str()),
        _ => true,
    };
    str_equal(left_title.as_str(), right_title.as_str()) && years && sequences
}

/// Whether a provider already has a candidate in the group.
pub open spec fn provider_taken(c: Seq<CandidateFields>, g: Seq<usize>, provider: Seq<char>) -> bool {
    exists|k: int| 0 <= k < g.len() && (#[trigger] c[g[k] as int]).provider@ == provider
}

/// Whether an identifier is among the identity identifiers.
pub open spec fn is_identity(ids: Seq<ExternalKey>, k: ExternalKey) -> bool {
    exists|i: int| 0 <= i < ids.len() && key_view(#[trigger] ids[i]) == key_view(k)
}

/// The group of the first `n` candidates: the first, then each later one
/// whose provider has none in the group yet and which is an identity
/// candidate or the same work as the first.
pub open spec fn group_spec(c: Seq<CandidateFields>, ids: Seq<ExternalKey>, n: nat) -> Seq<usize>
    decreases n,
{
    if n == 0 {
        Seq::empty()
    } else if n == 1 {
        seq![0usize]
    } else {
        let g = group_spec(c, ids, (n - 1) as nat);
        let j = n - 1;
        if !provider_taken(c, g, c[j].provider@) && (is_identity(ids, c[j].external_id) || same_work_spec(
            c[0],
            c[j],
        )) {
            g.push(j as usize)
        } else {
            g
        }
    }
}

/// Groups the candidates that describe the same work as the first, at most
/// one per provider; gives their positions.
pub fn candidate_group(candidates: &Vec<CandidateFields>, identity_ids: &Vec<ExternalKey>) -> (group: Vec<usize>)
    ensures
        group@ == group_spec(candidates@, identity_ids@, candidates@.len()),
{
    let ghost c = candidates@;
    let ghost ids = identity_ids@;
    if candidates.len() == 0 {
        return Vec::new();
    }
    let mut selected: Vec<usize> = vec![0];
    let mut j: usize = 1;
    assert(selected@ =~= group_spec(c, ids, 1));
    while j < candidates.len()
        invariant
            1 <= j <= c.len(),
            c == candidates@,
            ids == identity_ids@,
            selected@ == group_spec(c, ids, j as nat),
            forall|k: int| 0 <= k < selected@.len() ==> selected@[k] < j,
        decreases c.len() - j,
    {
        let candidate = &candidates[j];
        let mut taken = false;
        let mut k: usize = 0;
        while k < selected.len()
            invariant
                k <= selected@.len(),
                c == candidates@,
                j < c.len(),
                forall|m: int| 0 <= m < selected@.len() ==> selected@[m] < j,
                *candidate == c[j as int],
                taken == exists|m: int| 0 <= m < k && (#[trigger] c[selected@[m] as int]).provider@ == c[j as int].provider@,
            decreases selected@.len() - k,
        {
            let other = &candidates[selected[k]];
            assert(*other == c[selected@[k as int] as int]);
            if str_equal(other.provider.as_str(), candidate.provider.as_str()) {
                taken = true;
            }
            k += 1;
        }
        let mut identity = false;
        let mut m: usize = 0;
        while m < identity_ids.len()
            invariant
                m <= ids.len(),
                ids == identity_ids@,
                j < c.len(),
                *candidate == c[j as int],
                identity == exists|q: int| 0 <= q < m && key_view(#[trigger] ids[q]) == key_view(c[j as int].external_id),
            decreases ids.len() - m,
        {
            if keys_equal(&identity_ids[m], &candidate.external_id) {
                identity = true;
            }
            m += 1;
        }
        if !taken && (identity || same_work(&candidates[0], candidate)) {
            selected.push(j);
        }
        j += 1;
    }
    selected
}

/// A group starts with the first candidate, keeps the candidates' order, and
/// holds at most one candidate per provider.
pub proof fn law_group_has_one_candidate_per_provider(c: Seq<CandidateFields>, ids: Seq<ExternalKey>, n: nat)
    requires
        n <= c.len(),
        n <= usize::MAX,
    ensures
        n > 0 ==> group_spec(c, ids, n).len() > 0 && group_spec(c, ids, n)[0] == 0,
        forall|a: int, b: int| 0 <= a < b < group_spec(c, ids, n).len() ==> group_spec(c, ids, n)[a] < group_spec(c, ids, n)[b],
        forall|k: int| 0 <= k < group_spec(c, ids, n).len() ==> group_spec(c, ids, n)[k] < n,
        forall|a: int, b: int| 0 <= a < b < group_spec(c, ids, n).len() ==>
            c[group_spec(c, ids, n)[a] as int].provider@ != c[group_spec(c, ids, n)[b] as int].provider@,
    decreases n,
{
    if n > 1 {
        law_group_has_one_candidate_per_provider(c, ids, (n - 1) as nat);
        let g = group_spec(c, ids, (n - 1) as nat);
        let j = n - 1;
        if group_spec(c, ids, n) != g {
            let g2 = g.push(j as usize);
            assert(group_spec(c, ids, n) == g2);
            assert forall|a: int, b: int| #![trigger g2[a], g2[b]] 0 <= a < b < g2.len() implies
                c[g2[a] as int].provider@ != c[g2[b] as int].provider@ by {
                if b == g.len() {
                    assert(g2[a] == g[a]);
                    if c[g[a] as int].provider@ == c[j as int].provider@ {
                        assert(provider_taken(c, g, c[j as int].provider@));
                    }
                } else {
                    assert(g2[a] == g[a] && g2[b] == g[b]);
                }
            }
            assert forall|a: int, b: int| #![trigger g2[a], g2[b]] 0 <= a < b < g2.len() implies g2[a] < g2[b] by {
                if b < g.len() {
                    assert(g2[a] == g[a] && g2[b] == g[b]);
                }
            }
        }
    }
}

} // verus!
