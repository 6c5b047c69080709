use vstd::prelude::*;

verus! {

broadcast use vstd::string::group_string_axioms;

/// The characters of `s`, in order.
pub fn chars_of(s: &str) -> (chars: Vec<char>)
    ensures
        chars@ == s@,
{
    let mut chars: Vec<char> = Vec::new();
    for c in it: s.chars()
        invariant
            it.seq() == s@,
            chars@ == it.seq().take(it.index() as int),
    {
        chars.push(c);
    }
    chars
}

/// Whether two character sequences held in vectors are equal.
pub fn char_vecs_equal(a: &Vec<char>, b: &Vec<char>) -> (equal: bool)
    ensures
        equal == (a@ == b@),
{
    if a.len() != b.len() {
        return false;
    }
    let mut i: usize = 0;
    while i < a.len()
        invariant
            a@.len() == b@.len(),
            i <= a@.len(),
            forall|j: int| 0 <= j < i ==> a@[j] == b@[j],
        decreases a@.len() - i,
    {
        if a[i] != b[i] {
            return false;
        }
        i += 1;
    }
    assert(a@ =~= b@);
    true
}

/// Whether two strings hold the same characters.
pub fn str_equal(a: &str, b: &str) -> (equal: bool)
    ensures
        equal == (a@ == b@),
{
    let ac = chars_of(a);
    let bc = chars_of(b);
    char_vecs_equal(&ac, &bc)
}

/// Unicode general category `Cc`, the set that `char::is_control` recognises.
pub open spec fn is_control_char(c: char) -> bool {
    (c as u32) <= 0x1f || (0x7f <= (c as u32) && (c as u32) <= 0x9f)
}

/// Whether some character of `s` is a control character.
pub open spec fn has_control(s: Seq<char>) -> bool {
    exists|i: int| 0 <= i < s.len() && is_control_char(#[trigger] s[i])
}

pub fn is_control(c: char) -> (control: bool)
    ensures
        control == is_control_char(c),
{
    let v = c as u32;
    v <= 0x1f || (0x7f <= v && v <= 0x9f)
}

/// Scans `s` for a control character.
pub fn contains_control(s: &str) -> (found: bool)
    ensures
        found == has_control(s@),
{
    let chars = chars_of(s);
    let mut i: usize = 0;
    while i < chars.len()
        invariant
            chars@ == s@,
            i <= chars@.len(),
            forall|j: int| 0 <= j < i ==> !is_control_char(#[trigger] chars@[j]),
        decreases chars@.len() - i,
    {
        if is_control(chars[i]) {
            return true;
        }
        i += 1;
    }
    false
}

} // verus!

verus! {

/// The `White_Space` property that `char::is_whitespace` recognises.
pub open spec fn is_whitespace_char(c: char) -> bool {
    let v = c as u32;
    (0x9 <= v && v <= 0xd) || v == 0x20 || v == 0x85 || v == 0xa0 || v == 0x1680 || (0x2000 <= v
        && v <= 0x200a) || v == 0x2028 || v == 0x2029 || v == 0x202f || v == 0x205f || v == 0x3000
}

pub fn is_whitespace(c: char) -> (ws: bool)
    ensures
        ws == is_whitespace_char(c),
{
    let v = c as u32;
    (0x9 <= v && v <= 0xd) || v == 0x20 || v == 0x85 || v == 0xa0 || v == 0x1680 || (0x2000 <= v
        && v <= 0x200a) || v == 0x2028 || v == 0x2029 || v == 0x202f || v == 0x205f || v == 0x3000
}

/// `s` without leading white space.
pub open spec fn trim_start_spec(s: Seq<char>) -> Seq<char>
    decreases s.len(),
{
    if s.len() > 0 && is_whitespace_char(s[0]) {
        trim_start_spec(s.drop_first())
    } else {
        s
    }
}

/// `s` without trailing white space.
pub open spec fn trim_end_spec(s: Seq<char>) -> Seq<char>
    decreases s.len(),
{
    if s.len() > 0 && is_whitespace_char(s.last()) {
        trim_end_spec(s.drop_last())
    } else {
        s
    }
}

/// `s` without leading or trailing white space, as `str::trim` gives it.
pub open spec fn trim_spec(s: Seq<char>) -> Seq<char> {
    trim_end_spec(trim_start_spec(s))
}

proof fn lemma_trim_start_skip(s: Seq<char>, i: int)
    requires
        0 <= i <= s.len(),
        forall|j: int| 0 <= j < i ==> is_whitespace_char(#[trigger] s[j]),
    ensures
        trim_start_spec(s) == trim_start_spec(s.subrange(i, s.len() as int)),
    decreases i,
{
    if i > 0 {
        assert(s.drop_first().subrange(i - 1, s.drop_first().len() as int) =~= s.subrange(
            i,
            s.len() as int,
        ));
        lemma_trim_start_skip(s.drop_first(), i - 1);
    } else {
        assert(s.subrange(0, s.len() as int) =~= s);
    }
}

proof fn lemma_trim_end_skip(s: Seq<char>, k: int)
    requires
        0 <= k <= s.len(),
        forall|j: int| k <= j < s.len() ==> is_whitespace_char(#[trigger] s[j]),
    ensures
        trim_end_spec(s) == trim_end_spec(s.subrange(0, k)),
    decreases s.len() - k,
{
    if k < s.len() {
        assert(s.drop_last().subrange(0, k) =~= s.subrange(0, k));
        lemma_trim_end_skip(s.drop_last(), k);
    } else {
        assert(s.subrange(0, k) =~= s);
    }
}

/// The bounds `(start, end)` of `s` with surrounding white space removed.
pub fn trim_bounds(s: &Vec<char>) -> (bounds: (usize, usize))
    ensures
        bounds.0 <= bounds.1 <= s@.len(),
        s@.subrange(bounds.0 as int, bounds.1 as int) == trim_spec(s@),
{
    let mut start: usize = 0;
    while start < s.len() && is_whitespace(s[start])
        invariant
            start <= s@.len(),
            forall|j: int| 0 <= j < start ==> is_whitespace_char(#[trigger] s@[j]),
        decreases s@.len() - start,
    {
        start += 1;
    }
    let ghost rest = s@.subrange(start as int, s@.len() as int);
    proof {
        lemma_trim_start_skip(s@, start as int);
        if rest.len() > 0 {
            assert(rest[0] == s@[start as int]);
        }
        assert(trim_start_spec(rest) == rest);
    }
    let mut end: usize = s.len();
    while end > start && is_whitespace(s[end - 1])
        invariant
            start <= end <= s@.len(),
            forall|j: int| end <= j < s@.len() ==> is_whitespace_char(#[trigger] s@[j]),
        decreases end,
    {
        end -= 1;
    }
    proof {
        let k = end - start;
        assert forall|j: int| k <= j < rest.len() implies is_whitespace_char(#[trigger] rest[j]) by {
            assert(rest[j] == s@[start + j]);
        }
        lemma_trim_end_skip(rest, k);
        let kept = rest.subrange(0, k);
        assert(kept =~= s@.subrange(start as int, end as int));
        if kept.len() > 0 {
            assert(kept.last() == s@[end - 1]);
        }
        assert(trim_end_spec(kept) == kept);
    }
    (start, end)
}

/// Appends one character to a string.
#[verifier::external_body]
pub(crate) fn push_char(s: &mut String, c: char)
    ensures
        final(s)@ == old(s)@.push(c),
{
    s.push(c);
}

/// A string holding the characters `chars[from..to]`.
pub fn string_from_chars(chars: &Vec<char>, from: usize, to: usize) -> (s: String)
    requires
        from <= to <= chars@.len(),
    ensures
        s@ == chars@.subrange(from as int, to as int),
{
    let mut s = String::new();
    let mut i = from;
    while i < to
        invariant
            from <= i <= to <= chars@.len(),
            s@ == chars@.subrange(from as int, i as int),
        decreases to - i,
    {
        push_char(&mut s, chars[i]);
        assert(chars@.subrange(from as int, i + 1) =~= chars@.subrange(from as int, i as int).push(
            chars@[i as int],
        ));
        i += 1;
    }
    s
}

/// `s` with surrounding white space removed, as `str::trim` does.
pub fn trim(s: &str) -> (t: String)
    ensures
        t@ == trim_spec(s@),
{
    let chars = chars_of(s);
    let (start, end) = trim_bounds(&chars);
    string_from_chars(&chars, start, end)
}

/// ASCII upper-case letters mapped to lower case; every other character kept.
pub open spec fn ascii_lower_char(c: char) -> char {
    if 'A' <= c && c <= 'Z' {
        ((c as u32) + 32) as char
    } else {
        c
    }
}

pub open spec fn ascii_lower_spec(s: Seq<char>) -> Seq<char> {
    s.map_values(|c: char| ascii_lower_char(c))
}

pub fn ascii_lower(c: char) -> (lower: char)
    ensures
        lower == ascii_lower_char(c),
{
    if 'A' <= c && c <= 'Z' {
        ((c as u8) + 32) as char
    } else {
        c
    }
}

} // verus!

verus! {

/// The number of bytes of the UTF-8 encoding of `s`, which `str::len` reports.
pub open spec fn utf8_len(s: Seq<char>) -> nat {
    vstd::utf8::encode_utf8(s).len()
}

} // verus!

verus! {

/// The length of `s` in bytes: the length of its UTF-8 encoding.
pub(crate) fn byte_len(s: &str) -> (n: usize)
    ensures
        n as nat == utf8_len(s@),
{
    s.as_bytes().len()
}

} // verus!

verus! {

proof fn lemma_trim_start_result(s: Seq<char>)
    ensures
        trim_start_spec(s).len() == 0 || !is_whitespace_char(trim_start_spec(s)[0]),
        trim_start_spec(trim_start_spec(s)) == trim_start_spec(s),
    decreases s.len(),
{
    if s.len() > 0 && is_whitespace_char(s[0]) {
        lemma_trim_start_result(s.drop_first());
    }
}

proof fn lemma_trim_end_keeps_start(s: Seq<char>)
    requires
        s.len() == 0 || !is_whitespace_char(s[0]),
    ensures
        trim_end_spec(s).len() == 0 || !is_whitespace_char(trim_end_spec(s)[0]),
        trim_end_spec(s).len() == 0 || !is_whitespace_char(trim_end_spec(s).last()),
        trim_end_spec(trim_end_spec(s)) == trim_end_spec(s),
        trim_end_spec(s).len() == 0 || trim_end_spec(s)[0] == s[0],
    decreases s.len(),
{
    if s.len() > 0 && is_whitespace_char(s.last()) {
        if s.len() > 1 {
            assert(s.drop_last()[0] == s[0]);
        }
        lemma_trim_end_keeps_start(s.drop_last());
    }
}

/// Trimming twice is trimming once.
pub proof fn lemma_trim_idempotent(s: Seq<char>)
    ensures
        trim_spec(trim_spec(s)) == trim_spec(s),
{
    lemma_trim_start_result(s);
    let t = trim_start_spec(s);
    lemma_trim_end_keeps_start(t);
    let u = trim_end_spec(t);
    assert(trim_start_spec(u) == u);
}

} // verus!

verus! {

/// `a` followed by `b`.
pub fn concat_str(a: &str, b: &str) -> (joined: String)
    ensures
        joined@ == a@ + b@,
{
    let mut joined = String::from_str(a);
    joined.append(b);
    joined
}

/// `s` with ASCII upper-case letters mapped to lower case, as `str::to_ascii_lowercase`.
pub fn ascii_lowercase(s: &str) -> (lower: String)
    ensures
        lower@ == ascii_lower_spec(s@),
{
    let chars = chars_of(s);
    let mut lower = String::new();
    let mut i: usize = 0;
    while i < chars.len()
        invariant
            chars@ == s@,
            i <= chars@.len(),
            lower@ == ascii_lower_spec(s@.take(i as int)),
        decreases chars@.len() - i,
    {
        let c = ascii_lower(chars[i]);
        push_char(&mut lower, c);
        assert(ascii_lower_spec(s@.take(i + 1)) =~= ascii_lower_spec(s@.take(i as int)).push(c));
        i += 1;
    }
    assert(s@.take(chars@.len() as int) =~= s@);
    lower
}

/// The pieces of `s` between occurrences of `sep`, as `str::split` yields them;
/// there is always at least one piece.
pub open spec fn split_spec(s: Seq<char>, sep: char) -> Seq<Seq<char>>
    decreases s.len(),
{
    if s.len() == 0 {
        seq![seq![]]
    } else {
        let pieces = split_spec(s.drop_last(), sep);
        if s.last() == sep {
            pieces.push(seq![])
        } else {
            pieces.update(pieces.len() - 1, pieces.last().push(s.last()))
        }
    }
}

pub proof fn lemma_split_nonempty(s: Seq<char>, sep: char)
    ensures
        split_spec(s, sep).len() >= 1,
    decreases s.len(),
{
    if s.len() > 0 {
        lemma_split_nonempty(s.drop_last(), sep);
    }
}

/// The trimmed, non-empty pieces of `pieces`, in order.
pub open spec fn trimmed_nonempty(pieces: Seq<Seq<char>>) -> Seq<Seq<char>>
    decreases pieces.len(),
{
    if pieces.len() == 0 {
        seq![]
    } else {
        let rest = trimmed_nonempty(pieces.drop_last());
        let t = trim_spec(pieces.last());
        if t.len() > 0 {
            rest.push(t)
        } else {
            rest
        }
    }
}

/// The comma-separated values of `value`, trimmed, with empty ones dropped.
pub open spec fn csv_spec(value: Seq<char>) -> Seq<Seq<char>> {
    trimmed_nonempty(split_spec(value, ','))
}

proof fn lemma_trimmed_push(pieces: Seq<Seq<char>>, p: Seq<char>)
    ensures
        trimmed_nonempty(pieces.push(p)) == if trim_spec(p).len() > 0 {
            trimmed_nonempty(pieces).push(trim_spec(p))
        } else {
            trimmed_nonempty(pieces)
        },
{
    assert(pieces.push(p).drop_last() =~= pieces);
}

/// Splits `value` at commas, trims every piece and keeps the non-empty ones.
pub fn csv(value: &str) -> (values: Vec<String>)
    ensures
        values@.map_values(|v: String| v@) == csv_spec(value@),
{
    let chars = chars_of(value);
    let mut values: Vec<String> = Vec::new();
    let mut start: usize = 0;
    let mut i: usize = 0;
    proof {
        assert(value@.take(0) =~= Seq::<char>::empty());
        assert(split_spec(Seq::<char>::empty(), ',') == seq![Seq::<char>::empty()]);
        assert(seq![Seq::<char>::empty()].drop_last().push(chars@.subrange(0, 0)) =~= seq![
            Seq::<char>::empty()]);
        assert(seq![Seq::<char>::empty()].drop_last() =~= Seq::<Seq<char>>::empty());
        assert(values@.map_values(|v: String| v@) =~= Seq::<Seq<char>>::empty());
    }
    while i < chars.len()
        invariant
            chars@ == value@,
            start <= i <= chars@.len(),
            split_spec(value@.take(i as int), ',') == split_spec(
                value@.take(start as int),
                ',',
            ).drop_last().push(chars@.subrange(start as int, i as int)),
            values@.map_values(|v: String| v@) == trimmed_nonempty(
                split_spec(value@.take(start as int), ',').drop_last(),
            ),
            split_spec(value@.take(start as int), ',').last() == Seq::<char>::empty(),
            split_spec(value@.take(start as int), ',').len() >= 1,
        decreases chars@.len() - i,
    {
        let c = chars[i];
        let ghost pieces_i = split_spec(value@.take(i as int), ',');
        proof {
            assert(value@.take(i + 1).drop_last() =~= value@.take(i as int));
            lemma_split_nonempty(value@.take(i as int), ',');
        }
        if c == ',' {
            let piece = string_from_chars(&chars, start, i);
            let trimmed = trim(piece.as_str());
            proof {
                lemma_trimmed_push(
                    split_spec(value@.take(start as int), ',').drop_last(),
                    chars@.subrange(start as int, i as int),
                );
                assert(pieces_i.drop_last() =~= split_spec(value@.take(start as int), ',').drop_last());
            }
            if !trimmed.as_str().is_empty() {
                values.push(trimmed);
            }
            proof {
                assert(split_spec(value@.take(i + 1), ',') == pieces_i.push(seq![]));
                assert(split_spec(value@.take(i + 1), ',').drop_last() =~= pieces_i);
                assert(pieces_i =~= split_spec(value@.take(start as int), ',').drop_last().push(
                    chars@.subrange(start as int, i as int),
                ));
                assert(values@.map_values(|v: String| v@) =~= trimmed_nonempty(pieces_i));
                assert(chars@.subrange(i + 1, i + 1) =~= Seq::<char>::empty());
                assert(pieces_i.push(seq![]).drop_last().push(chars@.subrange(i + 1, i + 1))
                    =~= pieces_i.push(seq![]));
            }
            start = i + 1;
        } else {
            proof {
                assert(value@.take(i + 1).last() == c);
                assert(split_spec(value@.take(i + 1), ',') == pieces_i.update(
                    pieces_i.len() - 1,
                    pieces_i.last().push(c),
                ));
                assert(chars@.subrange(start as int, i + 1) =~= chars@.subrange(
                    start as int,
                    i as int,
                ).push(c));
                assert(split_spec(value@.take(i + 1), ',') =~= split_spec(
                    value@.take(start as int),
                    ',',
                ).drop_last().push(chars@.subrange(start as int, i + 1)));
            }
        }
        i += 1;
    }
    let piece = string_from_chars(&chars, start, chars.len());
    let trimmed = trim(piece.as_str());
    proof {
        assert(value@.take(chars@.len() as int) =~= value@);
        lemma_trimmed_push(
            split_spec(value@.take(start as int), ',').drop_last(),
            chars@.subrange(start as int, chars@.len() as int),
        );
    }
    if !trimmed.as_str().is_empty() {
        values.push(trimmed);
    }
    assert(values@.map_values(|v: String| v@) =~= csv_spec(value@));
    values
}

} // verus!

verus! {

/// The pieces of `value` between occurrences of `sep`, as `str::split` yields them.
pub fn split_pieces(value: &str, sep: char) -> (pieces: Vec<String>)
    ensures
        pieces@.map_values(|v: String| v@) == split_spec(value@, sep),
{
    let chars = chars_of(value);
    let mut pieces: Vec<String> = Vec::new();
    let mut start: usize = 0;
    let mut i: usize = 0;
    proof {
        assert(value@.take(0) =~= Seq::<char>::empty());
        assert(split_spec(Seq::<char>::empty(), sep) == seq![Seq::<char>::empty()]);
        assert(seq![Seq::<char>::empty()].drop_last() =~= Seq::<Seq<char>>::empty());
        assert(pieces@.map_values(|v: String| v@) =~= Seq::<Seq<char>>::empty());
    }
    while i < chars.len()
        invariant
            chars@ == value@,
            start <= i <= chars@.len(),
            split_spec(value@.take(i as int), sep) == split_spec(
                value@.take(start as int),
                sep,
            ).drop_last().push(chars@.subrange(start as int, i as int)),
            pieces@.map_values(|v: String| v@) == split_spec(
                value@.take(start as int),
                sep,
            ).drop_last(),
            split_spec(value@.take(start as int), sep).last() == Seq::<char>::empty(),
            split_spec(value@.take(start as int), sep).len() >= 1,
        decreases chars@.len() - i,
    {
        let c = chars[i];
        let ghost pieces_i = split_spec(value@.take(i as int), sep);
        proof {
            assert(value@.take(i + 1).drop_last() =~= value@.take(i as int));
            lemma_split_nonempty(value@.take(i as int), sep);
        }
        if c == sep {
            let piece = string_from_chars(&chars, start, i);
            pieces.push(piece);
            proof {
                assert(split_spec(value@.take(i + 1), sep) == pieces_i.push(seq![]));
                assert(split_spec(value@.take(i + 1), sep).drop_last() =~= pieces_i);
                assert(pieces@.map_values(|v: String| v@) =~= pieces_i);
                assert(chars@.subrange(i + 1, i + 1) =~= Seq::<char>::empty());
                assert(pieces_i.push(seq![]).drop_last().push(chars@.subrange(i + 1, i + 1))
                    =~= pieces_i.push(seq![]));
            }
            start = i + 1;
        } else {
            proof {
                assert(value@.take(i + 1).last() == c);
                assert(split_spec(value@.take(i + 1), sep) == pieces_i.update(
                    pieces_i.len() - 1,
                    pieces_i.last().push(c),
                ));
                assert(chars@.subrange(start as int, i + 1) =~= chars@.subrange(
                    start as int,
                    i as int,
                ).push(c));
                assert(split_spec(value@.take(i + 1), sep) =~= split_spec(
                    value@.take(start as int),
                    sep,
                ).drop_last().push(chars@.subrange(start as int, i + 1)));
            }
        }
        i += 1;
    }
    let piece = string_from_chars(&chars, start, chars.len());
    pieces.push(piece);
    proof {
        assert(value@.take(chars@.len() as int) =~= value@);
        assert(pieces@.map_values(|v: String| v@) =~= split_spec(value@, sep));
    }
    pieces
}

/// The position of the first `c` in `s`.
pub open spec fn first_index_of(s: Seq<char>, c: char, i: int) -> bool {
    0 <= i < s.len() && s[i] == c && forall|j: int| 0 <= j < i ==> s[j] != c
}

/// `s` cut at its first `c`, as `str::split_once` does; `None` without a `c`.
pub open spec fn split_once_spec(s: Seq<char>, c: char) -> Option<(Seq<char>, Seq<char>)> {
    if s.contains(c) {
        let i = choose|i: int| first_index_of(s, c, i);
        Some((s.take(i), s.skip(i + 1)))
    } else {
        None
    }
}

/// Cuts `s` at its first `c`.
pub fn split_once(s: &str, c: char) -> (parts: Option<(String, String)>)
    ensures
        match parts {
            Some((a, b)) => split_once_spec(s@, c) == Some((a@, b@)),
            None => split_once_spec(s@, c) is None,
        },
{
    let chars = chars_of(s);
    let mut i: usize = 0;
    while i < chars.len()
        invariant
            chars@ == s@,
            i <= chars@.len(),
            forall|j: int| 0 <= j < i ==> chars@[j] != c,
        decreases chars@.len() - i,
    {
        if chars[i] == c {
            let before = string_from_chars(&chars, 0, i);
            let after = string_from_chars(&chars, i + 1, chars.len());
            proof {
                assert(first_index_of(s@, c, i as int));
                let k = choose|k: int| first_index_of(s@, c, k);
                assert(first_index_of(s@, c, k));
                assert(k == i) by {
                    if k < i {
                        assert(chars@[k] != c);
                    } else if k > i {
                        assert(s@[i as int] != c);
                    }
                }
                assert(s@.contains(c));
                assert(before@ =~= s@.take(i as int));
                assert(after@ =~= s@.skip(i + 1));
            }
            return Some((before, after));
        }
        i += 1;
    }
    proof {
        assert(!s@.contains(c)) by {
            if s@.contains(c) {
                let k = choose|k: int| 0 <= k < s@.len() && s@[k] == c;
                assert(chars@[k] != c);
            }
        }
    }
    None
}

} // verus!
