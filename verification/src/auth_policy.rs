//! The browser-facing side of authentication: allowed origins, the session
//! lifetime, and reading credentials out of request headers.
use vstd::prelude::*;

use crate::fs_policy::{chars_order, compare_chars, lemma_chars_order};
use crate::text::{first_index_of, is_whitespace_char, lemma_split_nonempty, trim_start_spec};
use crate::text::{
    chars_of, split_once, split_once_spec, split_pieces, split_spec, str_equal, string_from_chars,
    trim, trim_spec, utf8_len, byte_len,
};
use crate::validation::{origin_acceptable, url_parse, valid_origin_parts};

verus! {

broadcast use vstd::string::group_string_axioms;

/// Why an authentication setting was refused.
#[derive(Debug, Clone, PartialEq, Eq)]
pub enum AuthConfigError {
    EmptySessionLifetime,
    InvalidOrigin(String),
}

/// An exact HTTP or HTTPS origin: it parses, has a host, a root path, and no
/// credentials, query, fragment or wildcard.
pub open spec fn origin_valid(origin: Seq<char>) -> bool {
    url_parse(origin) is Ok && valid_origin_parts(origin, url_parse(origin)->Ok_0)
}

/// `s` without its trailing slashes.
pub open spec fn trim_end_slashes(s: Seq<char>) -> Seq<char>
    decreases s.len(),
{
    if s.len() > 0 && s.last() == '/' {
        trim_end_slashes(s.drop_last())
    } else {
        s
    }
}

fn strip_trailing_slashes(s: &str) -> (trimmed: String)
    ensures
        trimmed@ == trim_end_slashes(s@),
{
    let chars = chars_of(s);
    let mut end: usize = chars.len();
    assert(s@.take(end as int) =~= s@);
    while end > 0 && chars[end - 1] == '/'
        invariant
            chars@ == s@,
            end <= chars@.len(),
            trim_end_slashes(s@.take(end as int)) == trim_end_slashes(s@),
        decreases end,
    {
        assert(s@.take(end as int).drop_last() =~= s@.take(end - 1));
        end -= 1;
    }
    let trimmed = string_from_chars(&chars, 0, end);
    assert(trimmed@ =~= s@.take(end as int));
    trimmed
}

/// Checks a browser origin and gives it without trailing slashes.
pub fn validate_origin(origin: &str) -> (result: Result<String, AuthConfigError>)
    ensures
        match result {
            Ok(o) => origin_valid(origin@) && o@ == trim_end_slashes(origin@),
            Err(e) => !origin_valid(origin@) && e is InvalidOrigin && e->InvalidOrigin_0@
                == origin@,
        },
{
    match origin_acceptable(origin) {
        Ok(true) => Ok(strip_trailing_slashes(origin)),
        _ => Err(AuthConfigError::InvalidOrigin(origin.to_owned())),
    }
}

/// The views of a list of texts.
pub open spec fn texts_view(texts: Seq<String>) -> Seq<Seq<char>> {
    texts.map_values(|t: String| t@)
}

/// Each text is strictly smaller than the next one.
pub open spec fn ascending_texts(texts: Seq<Seq<char>>) -> bool {
    forall|i: int| 0 <= i < texts.len() - 1 ==> chars_order(#[trigger] texts[i], texts[i + 1]) == -1
}

fn order_at(sorted: &Vec<String>, k: usize, text: &Vec<char>) -> (order: i8)
    requires
        k < sorted@.len(),
    ensures
        order as int == chars_order(texts_view(sorted@)[k as int], text@),
{
    let current = chars_of(sorted[k].as_str());
    compare_chars(&current, text)
}

/// Inserts `text` into an ascending, duplicate-free list unless it is present.
#[verifier::spinoff_prover]
#[verifier::rlimit(40)]
pub(crate) fn insert_sorted_text(sorted: &mut Vec<String>, text: String)
    requires
        ascending_texts(texts_view(old(sorted)@)),
        texts_view(old(sorted)@).no_duplicates(),
    ensures
        ascending_texts(texts_view(final(sorted)@)),
        texts_view(final(sorted)@).no_duplicates(),
        texts_view(final(sorted)@).to_set() == texts_view(old(sorted)@).to_set().insert(text@),
{
    let ghost before = texts_view(sorted@);
    let key = chars_of(text.as_str());
    let mut found = false;
    let mut m: usize = 0;
    while m < sorted.len()
        invariant
            m <= sorted@.len(),
            before == texts_view(sorted@),
            key@ == text@,
            found == exists|j: int| 0 <= j < m && before[j] == text@,
        decreases sorted@.len() - m,
    {
        let c = order_at(sorted, m, &key);
        proof {
            lemma_chars_order(before[m as int], text@);
        }
        if c == 0 {
            found = true;
        }
        m += 1;
    }
    if found {
        proof {
            let j = choose|j: int| 0 <= j < sorted@.len() && before[j] == text@;
            assert(before.to_set().contains(text@));
            assert(before.to_set().insert(text@) =~= before.to_set());
        }
        return;
    }
    let mut k: usize = 0;
    while k < sorted.len() && order_at(sorted, k, &key) == -1
        invariant
            k <= sorted@.len(),
            before == texts_view(sorted@),
            key@ == text@,
            forall|j: int| 0 <= j < k ==> chars_order(before[j], text@) == -1,
        decreases sorted@.len() - k,
    {
        k += 1;
    }
    let ghost t = text@;
    sorted.insert(k, text);
    proof {
        let after = texts_view(sorted@);
        assert(after =~= before.insert(k as int, t));
        if k < before.len() {
            lemma_chars_order(before[k as int], t);
            assert(chars_order(before[k as int], t) != 0);
        }
        assert forall|j: int| 0 <= j < after.len() - 1 implies chars_order(
            #[trigger] after[j],
            after[j + 1],
        ) == -1 by {
            if j + 1 < k {
                assert(after[j] == before[j] && after[j + 1] == before[j + 1]);
            } else if j + 1 == k {
            } else if j == k {
            } else {
                assert(after[j] == before[j - 1] && after[j + 1] == before[j]);
            }
        }
        assert forall|a: int, b: int| 0 <= a < b < after.len() implies after[a] != after[b] by {
            if a == k as int {
                assert(after[b] == before[b - 1]);
            } else if b == k as int {
                assert(after[a] == before[a]);
            } else if a < k && b < k {
                assert(after[a] == before[a] && after[b] == before[b]);
            } else if a < k {
                assert(after[a] == before[a] && after[b] == before[b - 1]);
            } else {
                assert(after[a] == before[a - 1] && after[b] == before[b - 1]);
            }
        }
        assert(after.to_set() =~= before.to_set().insert(t)) by {
            assert forall|x| after.to_set().contains(x) implies before.to_set().insert(
                t,
            ).contains(x) by {
                let j = choose|j: int| 0 <= j < after.len() && after[j] == x;
                if j < k {
                    assert(before[j] == x);
                } else if j > k {
                    assert(before[j - 1] == x);
                }
            }
            assert forall|x| before.to_set().insert(t).contains(x) implies after.to_set().contains(
                x,
            ) by {
                if x == t {
                    assert(after[k as int] == x);
                } else {
                    let j = choose|j: int| 0 <= j < before.len() && before[j] == x;
                    if j < k {
                        assert(after[j] == x);
                    } else {
                        assert(after[j + 1] == x);
                    }
                }
            }
        }
    }
}

/// The origins that a list of configured origins allows: each without its
/// trailing slashes.
pub open spec fn normalized_origins(origins: Seq<Seq<char>>) -> Set<Seq<char>> {
    origins.map_values(|o: Seq<char>| trim_end_slashes(o)).to_set()
}

/// Validates browser origins and keeps them without trailing slashes, sorted
/// and without duplicates. The first invalid origin is reported.
pub fn normalize_origins(origins: &Vec<String>) -> (result: Result<Vec<String>, AuthConfigError>)
    ensures
        match result {
            Ok(allowed) => {
                &&& forall|i: int| 0 <= i < origins@.len() ==> origin_valid(#[trigger] origins@[i]@)
                &&& ascending_texts(texts_view(allowed@))
                &&& texts_view(allowed@).no_duplicates()
                &&& texts_view(allowed@).to_set() == normalized_origins(texts_view(origins@))
            },
            Err(e) => exists|i: int|
                0 <= i < origins@.len() && !origin_valid(#[trigger] origins@[i]@) && (forall|
                    j: int,
                | 0 <= j < i ==> origin_valid(#[trigger] origins@[j]@)) && e is InvalidOrigin
                    && e->InvalidOrigin_0@ == origins@[i]@,
        },
{
    let mut allowed: Vec<String> = Vec::new();
    let mut i: usize = 0;
    while i < origins.len()
        invariant
            i <= origins@.len(),
            forall|j: int| 0 <= j < i ==> origin_valid(#[trigger] origins@[j]@),
            ascending_texts(texts_view(allowed@)),
            texts_view(allowed@).no_duplicates(),
            texts_view(allowed@).to_set() == normalized_origins(
                texts_view(origins@).take(i as int),
            ),
        decreases origins@.len() - i,
    {
        let normalized = match validate_origin(origins[i].as_str()) {
            Ok(o) => o,
            Err(e) => return Err(e),
        };
        let ghost n = normalized@;
        insert_sorted_text(&mut allowed, normalized);
        proof {
            let prefix = texts_view(origins@).take(i as int);
            let next = texts_view(origins@).take(i + 1);
            assert(next =~= prefix.push(origins@[i as int]@));
            assert(next.map_values(|o: Seq<char>| trim_end_slashes(o)) =~= prefix.map_values(
                |o: Seq<char>| trim_end_slashes(o),
            ).push(n));
            prefix.map_values(|o: Seq<char>| trim_end_slashes(o)).lemma_push_to_set_commute(n);
        }
        i += 1;
    }
    assert(texts_view(origins@).take(origins@.len() as int) =~= texts_view(origins@));
    Ok(allowed)
}

/// Twelve hours, the default lifetime of a session.
pub const DEFAULT_SESSION_LIFETIME_SECS: u64 = 43200;

/// Authentication and browser-origin policy shared by secure routes. The
/// session lifetime is a duration: whole seconds and the nanoseconds beyond.
pub struct AuthState {
    secure_cookie: bool,
    session_lifetime_secs: u64,
    session_lifetime_nanos: u32,
    allowed_origins: Vec<String>,
}

impl AuthState {
    pub closed spec fn secure_view(&self) -> bool {
        self.secure_cookie
    }

    pub closed spec fn lifetime_view(&self) -> (u64, u32) {
        (self.session_lifetime_secs, self.session_lifetime_nanos)
    }

    pub closed spec fn origins_view(&self) -> Seq<Seq<char>> {
        texts_view(self.allowed_origins@)
    }

    pub fn new() -> (state: Self)
        ensures
            !state.secure_view(),
            state.lifetime_view() == (DEFAULT_SESSION_LIFETIME_SECS, 0u32),
            state.origins_view().len() == 0,
    {
        let state = AuthState {
            secure_cookie: false,
            session_lifetime_secs: DEFAULT_SESSION_LIFETIME_SECS,
            session_lifetime_nanos: 0,
            allowed_origins: Vec::new(),
        };
        assert(state.origins_view() =~= Seq::<Seq<char>>::empty());
        state
    }

    pub fn with_secure_cookie(self, secure: bool) -> (state: Self)
        ensures
            state.secure_view() == secure,
            state.lifetime_view() == self.lifetime_view(),
            state.origins_view() == self.origins_view(),
    {
        AuthState { secure_cookie: secure, ..self }
    }

    /// Sets the session lifetime, which must not be zero.
    pub fn with_session_lifetime(self, secs: u64, subsec_nanos: u32) -> (result: Result<
        Self,
        AuthConfigError,
    >)
        requires
            subsec_nanos < 1_000_000_000,
        ensures
            match result {
                Ok(state) => (secs > 0 || subsec_nanos > 0) && state.lifetime_view() == (
                    secs,
                    subsec_nanos,
                ) && state.secure_view() == self.secure_view() && state.origins_view()
                    == self.origins_view(),
                Err(e) => secs == 0 && subsec_nanos == 0 && e
                    == AuthConfigError::EmptySessionLifetime,
            },
    {
        if secs == 0 && subsec_nanos == 0 {
            return Err(AuthConfigError::EmptySessionLifetime);
        }
        Ok(AuthState { session_lifetime_secs: secs, session_lifetime_nanos: subsec_nanos, ..self })
    }

    /// Replaces the allowed origins: each must be an exact origin; they are kept
    /// without trailing slashes, sorted and without duplicates. The first
    /// invalid origin is reported.
    pub fn with_allowed_origins(self, origins: &Vec<String>) -> (result: Result<
        Self,
        AuthConfigError,
    >)
        ensures
            match result {
                Ok(state) => {
                    &&& forall|i: int| 0 <= i < origins@.len() ==> origin_valid(#[trigger] origins@[i]@)
                    &&& ascending_texts(state.origins_view())
                    &&& state.origins_view().no_duplicates()
                    &&& state.origins_view().to_set() == normalized_origins(texts_view(origins@))
                    &&& state.secure_view() == self.secure_view()
                    &&& state.lifetime_view() == self.lifetime_view()
                },
                Err(e) => exists|i: int|
                    0 <= i < origins@.len() && !origin_valid(#[trigger] origins@[i]@) && (forall|
                        j: int,
                    | 0 <= j < i ==> origin_valid(#[trigger] origins@[j]@)) && e is InvalidOrigin
                        && e->InvalidOrigin_0@ == origins@[i]@,
            },
    {
        match normalize_origins(origins) {
            Ok(allowed) => Ok(AuthState { allowed_origins: allowed, ..self }),
            Err(e) => Err(e),
        }
    }

    pub fn secure_cookie(&self) -> (secure: bool)
        ensures
            secure == self.secure_view(),
    {
        self.secure_cookie
    }

    /// The whole seconds of the session lifetime, the cookie's `Max-Age`.
    pub fn session_lifetime_secs(&self) -> (secs: u64)
        ensures
            secs == self.lifetime_view().0,
    {
        self.session_lifetime_secs
    }

    /// The nanoseconds of the session lifetime beyond its whole seconds.
    pub fn session_lifetime_subsec_nanos(&self) -> (nanos: u32)
        ensures
            nanos == self.lifetime_view().1,
    {
        self.session_lifetime_nanos
    }

    /// The allowed origins, ascending.
    pub fn allowed_origins(&self) -> (origins: &Vec<String>)
        ensures
            texts_view(origins@) == self.origins_view(),
    {
        &self.allowed_origins
    }

    /// Whether a request's `Origin` header is one of the allowed origins.
    pub fn origin_allowed(&self, origin: &str) -> (allowed: bool)
        ensures
            allowed == self.origins_view().contains(origin@),
    {
        let mut i: usize = 0;
        while i < self.allowed_origins.len()
            invariant
                i <= self.allowed_origins@.len(),
                forall|j: int| 0 <= j < i ==> self.origins_view()[j] != origin@,
            decreases self.allowed_origins@.len() - i,
        {
            if str_equal(self.allowed_origins[i].as_str(), origin) {
                assert(self.origins_view()[i as int] == origin@);
                return true;
            }
            i += 1;
        }
        false
    }
}

/// The value of the first `name=value` pair with a non-empty value among
/// `;`-separated pieces, each trimmed and cut at its first `=`.
pub open spec fn cookie_in_pieces(pieces: Seq<Seq<char>>, name: Seq<char>) -> Option<Seq<char>>
    decreases pieces.len(),
{
    if pieces.len() == 0 {
        None
    } else {
        match split_once_spec(trim_spec(pieces[0]), '=') {
            Some(kv) => if kv.0 == name && kv.1.len() > 0 {
                Some(kv.1)
            } else {
                cookie_in_pieces(pieces.drop_first(), name)
            },
            None => cookie_in_pieces(pieces.drop_first(), name),
        }
    }
}

/// The first value of cookie `name` over the `Cookie` header values, in order.
pub open spec fn cookie_in_headers(headers: Seq<Seq<char>>, name: Seq<char>) -> Option<Seq<char>>
    decreases headers.len(),
{
    if headers.len() == 0 {
        None
    } else {
        match cookie_in_pieces(split_spec(headers[0], ';'), name) {
            Some(v) => Some(v),
            None => cookie_in_headers(headers.drop_first(), name),
        }
    }
}

fn cookie_in_header(header: &str, name: &str) -> (value: Option<String>)
    ensures
        match value {
            Some(v) => cookie_in_pieces(split_spec(header@, ';'), name@) == Some(v@),
            None => cookie_in_pieces(split_spec(header@, ';'), name@) is None,
        },
{
    let pieces = split_pieces(header, ';');
    let ghost all = pieces@.map_values(|p: String| p@);
    let mut j: usize = 0;
    assert(all.skip(0) =~= all);
    while j < pieces.len()
        invariant
            j <= pieces@.len(),
            all == pieces@.map_values(|p: String| p@),
            all == split_spec(header@, ';'),
            cookie_in_pieces(all, name@) == cookie_in_pieces(all.skip(j as int), name@),
        decreases pieces@.len() - j,
    {
        let trimmed = trim(pieces[j].as_str());
        assert(all.skip(j as int)[0] == pieces@[j as int]@);
        assert(all.skip(j as int).drop_first() =~= all.skip(j + 1));
        match split_once(trimmed.as_str(), '=') {
            Some((candidate, value)) => {
                if str_equal(candidate.as_str(), name) && !value.as_str().is_empty() {
                    return Some(value);
                }
            },
            None => {},
        }
        j += 1;
    }
    assert(all.skip(j as int) =~= Seq::<Seq<char>>::empty());
    None
}

/// The value of cookie `name` in the request's `Cookie` header values: the
/// first pair, over the values in order, whose name matches and whose value is
/// not empty.
pub fn cookie_value(headers: &Vec<String>, name: &str) -> (value: Option<String>)
    ensures
        match value {
            Some(v) => cookie_in_headers(texts_view(headers@), name@) == Some(v@),
            None => cookie_in_headers(texts_view(headers@), name@) is None,
        },
{
    let ghost all = texts_view(headers@);
    let mut i: usize = 0;
    assert(all.skip(0) =~= all);
    while i < headers.len()
        invariant
            i <= headers@.len(),
            all == texts_view(headers@),
            cookie_in_headers(all, name@) == cookie_in_headers(all.skip(i as int), name@),
        decreases headers@.len() - i,
    {
        assert(all.skip(i as int)[0] == headers@[i as int]@);
        assert(all.skip(i as int).drop_first() =~= all.skip(i + 1));
        match cookie_in_header(headers[i].as_str(), name) {
            Some(v) => return Some(v),
            None => {},
        }
        i += 1;
    }
    assert(all.skip(i as int) =~= Seq::<Seq<char>>::empty());
    None
}

/// An ASCII whitespace character: space, tab, line feed, form feed or carriage
/// return. No other character's UTF-8 bytes hold one of these.
pub open spec fn ascii_whitespace(c: char) -> bool {
    c == ' ' || c == '\t' || c == '\n' || c == '\x0C' || c == '\r'
}

/// The token of an `Authorization: Bearer <token>` value: not empty and without
/// ASCII whitespace.
pub open spec fn bearer_spec(authorization: Seq<char>) -> Option<Seq<char>> {
    let prefix = "Bearer "@;
    if authorization.len() >= prefix.len() && authorization.take(prefix.len() as int) == prefix {
        let token = authorization.skip(prefix.len() as int);
        if token.len() > 0 && forall|i: int| 0 <= i < token.len() ==> !ascii_whitespace(#[trigger] token[i]) {
            Some(token)
        } else {
            None
        }
    } else {
        None
    }
}

/// The bearer token of a request, given its `Authorization` header value as
/// text, if it has one.
pub fn bearer_token(authorization: Option<&str>) -> (token: Option<String>)
    ensures
        authorization is None ==> token is None,
        authorization is Some ==> match token {
            Some(t) => bearer_spec(authorization->0@) == Some(t@),
            None => bearer_spec(authorization->0@) is None,
        },
{
    let value = match authorization {
        Some(v) => v,
        None => return None,
    };
    proof {
        reveal_strlit("Bearer ");
    }
    let chars = chars_of(value);
    let prefix = chars_of("Bearer ");
    if chars.len() < prefix.len() {
        return None;
    }
    let mut i: usize = 0;
    while i < prefix.len()
        invariant
            authorization == Some(value),
            chars@ == value@,
            prefix@ == "Bearer "@,
            "Bearer "@.len() == 7,
            prefix@.len() <= chars@.len(),
            i <= prefix@.len(),
            forall|j: int| 0 <= j < i ==> chars@[j] == prefix@[j],
        decreases prefix@.len() - i,
    {
        if chars[i] != prefix[i] {
            assert(value@.take(7)[i as int] != "Bearer "@[i as int]);
            assert(value@.take(7) != "Bearer "@);
            assert(bearer_spec(value@) is None);
            return None;
        }
        i += 1;
    }
    assert(value@.take(7) =~= "Bearer "@);
    if chars.len() == prefix.len() {
        return None;
    }
    let mut k: usize = prefix.len();
    while k < chars.len()
        invariant
            authorization == Some(value),
            chars@ == value@,
            7 <= k <= chars@.len(),
            "Bearer "@.len() == 7,
            value@.take(7) == "Bearer "@,
            forall|j: int| 7 <= j < k ==> !ascii_whitespace(#[trigger] chars@[j]),
        decreases chars@.len() - k,
    {
        let c = chars[k];
        if c == ' ' || c == '\t' || c == '\n' || c == '\x0C' || c == '\r' {
            assert(value@.skip(7)[k - 7] == c);
            assert(ascii_whitespace(value@.skip(7)[k - 7]));
            assert(bearer_spec(value@) is None);
            return None;
        }
        k += 1;
    }
    let token = string_from_chars(&chars, 7, chars.len());
    assert(token@ =~= value@.skip(7));
    assert forall|j: int| 0 <= j < token@.len() implies !ascii_whitespace(#[trigger] token@[j]) by {
        assert(token@[j] == chars@[j + 7]);
    }
    Some(token)
}

/// Login fields worth checking: a trimmed user name of 1 to 64 characters and
/// a password of 1 to 1024 bytes.
pub open spec fn login_fields_valid(username: Seq<char>, password: Seq<char>) -> bool {
    let name = trim_spec(username);
    name.len() > 0 && name.len() <= 64 && password.len() > 0 && utf8_len(password) <= 1024
}

/// The trimmed user name of a login request whose fields are worth checking.
pub fn login_username(username: &str, password: &str) -> (name: Option<String>)
    ensures
        match name {
            Some(n) => login_fields_valid(username@, password@) && n@ == trim_spec(username@),
            None => !login_fields_valid(username@, password@),
        },
{
    let name = trim(username);
    let count = chars_of(name.as_str()).len();
    if count == 0 || count > 64 || password.is_empty() || byte_len(password) > 1024 {
        return None;
    }
    Some(name)
}

/// A token sent as `Bearer <token>` is read back unchanged, for every
/// non-empty token without ASCII white space.
pub proof fn law_bearer_round_trip(token: Seq<char>)
    requires
        token.len() > 0,
        forall|i: int| 0 <= i < token.len() ==> !ascii_whitespace(#[trigger] token[i]),
    ensures
        bearer_spec("Bearer "@ + token) == Some(token),
{
    reveal_strlit("Bearer ");
    let text = "Bearer "@ + token;
    assert(text.take(7) =~= "Bearer "@);
    assert(text.skip(7) =~= token);
}

proof fn lemma_split_no_sep(b: Seq<char>, sep: char)
    requires
        !b.contains(sep),
    ensures
        split_spec(b, sep) == seq![b],
    decreases b.len(),
{
    if b.len() > 0 {
        assert(!b.drop_last().contains(sep)) by {
            if b.drop_last().contains(sep) {
                let k = choose|k: int| 0 <= k < b.drop_last().len() && b.drop_last()[k] == sep;
                assert(b[k] == sep);
            }
        }
        lemma_split_no_sep(b.drop_last(), sep);
        assert(b.last() != sep) by {
            assert(b[b.len() - 1] == b.last());
        }
        assert(b.drop_last().push(b.last()) =~= b);
    } else {
        assert(b =~= Seq::<char>::empty());
    }
}

proof fn lemma_split_concat(a: Seq<char>, b: Seq<char>, sep: char)
    ensures
        split_spec(a + seq![sep] + b, sep) == split_spec(a, sep) + split_spec(b, sep),
    decreases b.len(),
{
    let s = a + seq![sep] + b;
    if b.len() == 0 {
        assert(s.drop_last() =~= a);
        assert(split_spec(b, sep) =~= seq![Seq::<char>::empty()]);
        assert(split_spec(a, sep).push(seq![]) =~= split_spec(a, sep) + seq![Seq::<char>::empty()]);
    } else {
        lemma_split_concat(a, b.drop_last(), sep);
        assert(s.drop_last() =~= a + seq![sep] + b.drop_last());
        assert(s.last() == b.last());
        lemma_split_nonempty(b.drop_last(), sep);
        let pa = split_spec(a, sep);
        let pb = split_spec(b.drop_last(), sep);
        if b.last() == sep {
            assert((pa + pb).push(seq![]) =~= pa + pb.push(seq![]));
        } else {
            assert((pa + pb).update((pa + pb).len() - 1, (pa + pb).last().push(b.last())) =~= pa + pb.update(
                pb.len() - 1,
                pb.last().push(b.last()),
            ));
        }
    }
}

proof fn lemma_pieces_append(p: Seq<Seq<char>>, q: Seq<Seq<char>>, name: Seq<char>)
    requires
        cookie_in_pieces(p, name) is None,
    ensures
        cookie_in_pieces(p + q, name) == cookie_in_pieces(q, name),
    decreases p.len(),
{
    if p.len() > 0 {
        assert((p + q).drop_first() =~= p.drop_first() + q);
        assert((p + q)[0] == p[0]);
        lemma_pieces_append(p.drop_first(), q, name);
    } else {
        assert(p + q =~= q);
    }
}

proof fn lemma_trim_padded(w: Seq<char>, x: Seq<char>)
    requires
        forall|i: int| 0 <= i < w.len() ==> is_whitespace_char(#[trigger] w[i]),
        x.len() > 0,
        !is_whitespace_char(x[0]),
        !is_whitespace_char(x.last()),
    ensures
        trim_spec(w + x) == x,
    decreases w.len(),
{
    if w.len() > 0 {
        assert((w + x)[0] == w[0]);
        assert((w + x).drop_first() =~= w.drop_first() + x);
        lemma_trim_padded(w.drop_first(), x);
    } else {
        assert(w + x =~= x);
        assert(trim_start_spec(x) == x);
    }
}

proof fn lemma_split_once_at_name(n: Seq<char>, v: Seq<char>)
    requires
        !n.contains('='),
    ensures
        split_once_spec(n + seq!['='] + v, '=') == Some((n, v)),
{
    let s = n + seq!['='] + v;
    assert(s[n.len() as int] == '=');
    assert(s.contains('='));
    assert forall|j: int| 0 <= j < n.len() implies s[j] != '=' by {
        assert(s[j] == n[j]);
    }
    assert(first_index_of(s, '=', n.len() as int));
    let i = choose|i: int| first_index_of(s, '=', i);
    if i < n.len() {
        assert(s[i] == n[i]);
    }
    assert(i == n.len());
    assert(s.take(i) =~= n);
    assert(s.skip(i + 1) =~= v);
}

/// A `Cookie` header names its cookies as `name=value` pairs separated by
/// `;` and white space: the value of a cookie is found whether it stands
/// alone or after other pieces, padded as browsers send it. `rest` holds no
/// pair for the name; the name holds no `=` or `;` and does not start with
/// white space; the value is not empty, holds no `;` and does not end with
/// white space.
pub proof fn law_cookie_found_after_other_pieces(rest: Seq<char>, padding: Seq<char>, name: Seq<char>, value: Seq<char>)
    requires
        forall|i: int| 0 <= i < padding.len() ==> is_whitespace_char(#[trigger] padding[i]),
        name.len() > 0,
        !name.contains('='),
        !name.contains(';'),
        !is_whitespace_char(name[0]),
        value.len() > 0,
        !value.contains(';'),
        !is_whitespace_char(value.last()),
        cookie_in_pieces(split_spec(rest, ';'), name) is None,
    ensures
        cookie_in_headers(seq![padding + name + seq!['='] + value], name) == Some(value),
        cookie_in_headers(seq![rest + seq![';'] + padding + name + seq!['='] + value], name) == Some(value),
{
    let pair = name + seq!['='] + value;
    let piece = padding + pair;
    assert(padding + name + seq!['='] + value =~= piece);
    assert(rest + seq![';'] + padding + name + seq!['='] + value =~= rest + seq![';'] + piece);
    assert(!piece.contains(';')) by {
        if piece.contains(';') {
            let k = choose|k: int| 0 <= k < piece.len() && piece[k] == ';';
            if k < padding.len() {
                assert(is_whitespace_char(padding[k]));
            } else if k < padding.len() + name.len() {
                assert(name[k - padding.len()] == ';');
            } else if k > padding.len() + name.len() {
                assert(value[k - padding.len() - name.len() - 1] == ';');
            }
        }
    }
    lemma_split_no_sep(piece, ';');
    assert(pair[0] == name[0]);
    assert(pair.last() == value.last());
    lemma_trim_padded(padding, pair);
    lemma_split_once_at_name(name, value);
    assert(cookie_in_pieces(seq![piece], name) == Some(value)) by {
        assert(seq![piece][0] == piece);
    }
    assert(cookie_in_headers(seq![piece], name) == Some(value)) by {
        assert(seq![piece][0] == piece);
    }
    lemma_split_concat(rest, piece, ';');
    lemma_pieces_append(split_spec(rest, ';'), seq![piece], name);
    let header = rest + seq![';'] + piece;
    assert(cookie_in_headers(seq![header], name) == Some(value)) by {
        assert(seq![header][0] == header);
    }
}

} // verus!
