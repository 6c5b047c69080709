use vstd::prelude::*;

use crate::text::push_char;

verus! {

/// The character for a digit value below sixteen, lower-case for letters.
pub open spec fn digit_char(d: nat) -> char {
    if d < 10 {
        ((d + 48) as u32) as char
    } else {
        ((d + 87) as u32) as char
    }
}

/// The digits of `v` in base `radix`, most significant first, without leading zeros.
pub open spec fn digits_spec(v: nat, radix: nat) -> Seq<char>
    recommends
        2 <= radix <= 16,
    decreases v,
{
    if radix < 2 || v < radix {
        seq![digit_char(v)]
    } else {
        proof {
            assert(v / radix < v) by (nonlinear_arith)
                requires
                    radix >= 2,
                    v >= radix,
            ;
        }
        digits_spec(v / radix, radix).push(digit_char(v % radix))
    }
}

/// `s` preceded by enough zeros to make it at least `width` long.
pub open spec fn zero_pad(s: Seq<char>, width: nat) -> Seq<char> {
    if s.len() >= width {
        s
    } else {
        Seq::new((width - s.len()) as nat, |i: int| '0') + s
    }
}

fn digit(d: u128) -> (c: char)
    requires
        d < 16,
    ensures
        c == digit_char(d as nat),
{
    if d < 10 {
        ((d as u8) + 48) as char
    } else {
        ((d as u8) + 87) as char
    }
}

/// `value` written in base `radix`, padded with zeros to at least `width` characters.
pub fn format_unsigned(value: u128, radix: u128, width: usize) -> (text: String)
    requires
        2 <= radix <= 16,
        width <= 64,
    ensures
        text@ == zero_pad(digits_spec(value as nat, radix as nat), width as nat),
{
    let mut reversed: Vec<char> = Vec::new();
    let mut cur = value;
    let ghost mut suffix: Seq<char> = Seq::empty();
    while cur >= radix
        invariant
            2 <= radix <= 16,
            digits_spec(value as nat, radix as nat) == digits_spec(cur as nat, radix as nat)
                + suffix,
            suffix == reversed@.reverse(),
        decreases cur,
    {
        let d = cur % radix;
        let c = digit(d);
        proof {
            assert(digits_spec(cur as nat, radix as nat) == digits_spec(
                (cur / radix) as nat,
                radix as nat,
            ).push(digit_char(d as nat)));
            assert(digits_spec((cur / radix) as nat, radix as nat).push(digit_char(d as nat))
                + suffix =~= digits_spec((cur / radix) as nat, radix as nat) + (seq![
                digit_char(d as nat)] + suffix));
            assert(reversed@.push(c).reverse() =~= seq![c] + reversed@.reverse());
        }
        reversed.push(c);
        proof {
            suffix = seq![c] + suffix;
        }
        cur = cur / radix;
    }
    let first = digit(cur);
    reversed.push(first);
    proof {
        assert(reversed@.reverse() =~= seq![first] + suffix);
        assert(digits_spec(cur as nat, radix as nat) == seq![digit_char(cur as nat)]);
    }
    let ghost digits = reversed@.reverse();
    let mut text = String::new();
    let len = reversed.len();
    let mut i: usize = len;
    while i > 0
        invariant
            i <= len == reversed@.len(),
            digits == reversed@.reverse(),
            text@ == digits.subrange(0, (len - i) as int),
        decreases i,
    {
        i -= 1;
        push_char(&mut text, reversed[i]);
        assert(digits.subrange(0, (len - i) as int) =~= digits.subrange(0, (len - i - 1) as int).push(
            reversed@[i as int],
        ));
    }
    assert(text@ =~= digits);
    if len < width {
        let mut padded = String::new();
        let mut k: usize = 0;
        while k < width - len
            invariant
                k <= width - len,
                len < width,
                padded@ == Seq::new(k as nat, |j: int| '0'),
            decreases width - len - k,
        {
            push_char(&mut padded, '0');
            assert(padded@ =~= Seq::new((k + 1) as nat, |j: int| '0'));
            k += 1;
        }
        let mut j: usize = 0;
        let ghost pad = padded@;
        while j < len
            invariant
                j <= len == reversed@.len(),
                digits == reversed@.reverse(),
                text@ == digits,
                padded@ == pad + digits.subrange(0, j as int),
            decreases len - j,
        {
            let c = reversed[len - 1 - j];
            assert(digits[j as int] == c);
            push_char(&mut padded, c);
            assert(pad + digits.subrange(0, j + 1) =~= (pad + digits.subrange(0, j as int)).push(c));
            j += 1;
        }
        assert(digits.subrange(0, len as int) =~= digits);
        padded
    } else {
        text
    }
}

} // verus!

verus! {

/// `value` in decimal, with a leading `-` when negative.
pub open spec fn signed_decimal(value: int) -> Seq<char> {
    if value < 0 {
        seq!['-'] + digits_spec((-value) as nat, 10)
    } else {
        digits_spec(value as nat, 10)
    }
}

/// `value` in decimal, as `Display` writes an `i64`.
pub fn format_signed(value: i64) -> (text: String)
    ensures
        text@ == signed_decimal(value as int),
{
    if value < 0 {
        let magnitude: u64 = ((-(value + 1)) as u64) + 1;
        let digits = format_unsigned(magnitude as u128, 10, 0);
        let mut text = String::new();
        crate::text::push_char(&mut text, '-');
        let joined = crate::text::concat_str(text.as_str(), digits.as_str());
        assert(joined@ =~= seq!['-'] + digits_spec((-value) as nat, 10));
        joined
    } else {
        let digits = format_unsigned(value as u128, 10, 0);
        digits
    }
}

/// The value of a sequence of decimal digits.
pub open spec fn decimal_value(digits: Seq<char>) -> nat
    decreases digits.len(),
{
    if digits.len() == 0 {
        0
    } else {
        decimal_value(digits.drop_last()) * 10 + (digits.last() as nat - '0' as nat) as nat
    }
}

/// Whether every character is an ASCII digit.
pub open spec fn all_digits(s: Seq<char>) -> bool {
    forall|i: int| 0 <= i < s.len() ==> '0' <= #[trigger] s[i] <= '9'
}

/// What `str::parse::<u64>` accepts: an optional `+`, then one or more ASCII
/// digits whose value fits in a `u64`.
pub open spec fn parse_u64_spec(s: Seq<char>) -> Option<u64> {
    let digits = if s.len() > 0 && s[0] == '+' {
        s.drop_first()
    } else {
        s
    };
    if digits.len() > 0 && all_digits(digits) && decimal_value(digits) <= u64::MAX {
        Some(decimal_value(digits) as u64)
    } else {
        None
    }
}

proof fn lemma_decimal_value_grows(digits: Seq<char>, i: int)
    requires
        0 <= i <= digits.len(),
        all_digits(digits),
    ensures
        decimal_value(digits.take(i)) <= decimal_value(digits),
    decreases digits.len() - i,
{
    if i < digits.len() {
        lemma_decimal_value_grows(digits, i + 1);
        assert(digits.take(i + 1).drop_last() =~= digits.take(i));
        assert('0' <= digits[i] <= '9');
    } else {
        assert(digits.take(i) =~= digits);
    }
}

/// Parses an unsigned decimal number as `str::parse::<u64>` does.
pub fn parse_u64(s: &str) -> (value: Option<u64>)
    ensures
        value == parse_u64_spec(s@),
{
    let chars = crate::text::chars_of(s);
    let start: usize = if chars.len() > 0 && chars[0] == '+' {
        1
    } else {
        0
    };
    let ghost digits = if s@.len() > 0 && s@[0] == '+' {
        s@.drop_first()
    } else {
        s@
    };
    assert(digits =~= s@.skip(start as int));
    if start >= chars.len() {
        return None;
    }
    let mut value: u64 = 0;
    let mut i: usize = start;
    assert(digits.take(0) =~= Seq::<char>::empty());
    while i < chars.len()
        invariant
            chars@ == s@,
            start <= i <= chars@.len(),
            digits == s@.skip(start as int),
            digits == (if s@.len() > 0 && s@[0] == '+' {
                s@.drop_first()
            } else {
                s@
            }),
            digits.len() > 0,
            all_digits(digits.take(i - start)),
            value as nat == decimal_value(digits.take(i - start)),
        decreases chars@.len() - i,
    {
        let c = chars[i];
        if !('0' <= c && c <= '9') {
            assert(digits[i - start] == c);
            assert(!all_digits(digits));
            return None;
        }
        let d = (c as u32 - '0' as u32) as u64;
        assert(digits.take(i + 1 - start).drop_last() =~= digits.take(i - start));
        assert(digits.take(i + 1 - start).last() == c);
        if value > (u64::MAX - d) / 10 {
            proof {
                assert(value * 10 + d > u64::MAX) by (nonlinear_arith)
                    requires
                        value > (u64::MAX - d) / 10,
                        d <= 9,
                ;
                if all_digits(digits) {
                    lemma_decimal_value_grows(digits, i + 1 - start);
                }
            }
            return None;
        }
        proof {
            assert(value * 10 + d <= u64::MAX) by (nonlinear_arith)
                requires
                    value <= (u64::MAX - d) / 10,
                    d <= 9,
            ;
        }
        value = value * 10 + d;
        i += 1;
    }
    assert(digits.take(i - start) =~= digits);
    Some(value)
}

} // verus!

verus! {

proof fn lemma_digit_value(d: nat)
    requires
        d < 10,
    ensures
        digit_char(d) as nat == d + 48,
        '0' <= digit_char(d) <= '9',
{
    let u = (d + 48) as u32;
    assert(u == d + 48);
    assert(u as char as nat == u as nat);
}

/// Decimal digits read back give the number they were written from.
pub proof fn lemma_decimal_round_trip(v: nat)
    ensures
        all_digits(digits_spec(v, 10)),
        digits_spec(v, 10).len() > 0,
        decimal_value(digits_spec(v, 10)) == v,
        digits_spec(v, 10)[0] != '+',
    decreases v,
{
    if v < 10 {
        lemma_digit_value(v);
        assert(digits_spec(v, 10) == seq![digit_char(v)]);
        assert(seq![digit_char(v)].drop_last() =~= Seq::<char>::empty());
        assert('0' as nat == 48);
        let d = digits_spec(v, 10);
        assert(d.last() == digit_char(v));
        assert(decimal_value(d) == decimal_value(d.drop_last()) * 10 + (d.last() as nat - '0' as nat) as nat);
        assert(decimal_value(d.drop_last()) == 0);
    } else {
        lemma_decimal_round_trip(v / 10);
        lemma_digit_value(v % 10);
        let d = digits_spec(v, 10);
        assert(d == digits_spec(v / 10, 10).push(digit_char(v % 10)));
        assert(d.drop_last() =~= digits_spec(v / 10, 10));
        assert(d[0] == digits_spec(v / 10, 10)[0]);
        assert('0' as nat == 48);
        assert(d.last() == digit_char(v % 10));
        assert(decimal_value(d) == decimal_value(d.drop_last()) * 10 + (d.last() as nat - '0' as nat) as nat);
        assert(v == (v / 10) * 10 + v % 10) by (nonlinear_arith);
    }
}

} // verus!
