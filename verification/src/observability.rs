use vstd::prelude::*;

use crate::numbers::{digits_spec, format_unsigned, zero_pad};
use crate::random::fill_random;
use crate::text::chars_of;

verus! {

broadcast use vstd::string::group_string_axioms;

/// The request id used when no randomness is available: `req-` and the
/// sequence number in 32 lower-case hexadecimal digits.
pub open spec fn fallback_request_id_spec(sequence: u64) -> Seq<char> {
    "req-"@ + zero_pad(digits_spec(sequence as nat, 16), 32)
}

pub fn fallback_request_id(sequence: u64) -> (id: String)
    ensures
        id@ == fallback_request_id_spec(sequence),
        id@.len() == 36,
{
    let mut id = String::from_str("req-");
    let hex = format_unsigned(sequence as u128, 16, 32);
    id.append(hex.as_str());
    proof {
        reveal_strlit("req-");
        lemma_hex_digits_len(sequence as nat, 16);
    }
    id
}

pub open spec fn pow16(k: nat) -> nat
    decreases k,
{
    if k == 0 {
        1
    } else {
        16 * pow16((k - 1) as nat)
    }
}

proof fn lemma_digits_len(v: nat, k: nat)
    requires
        k >= 1,
        v < pow16(k),
    ensures
        digits_spec(v, 16).len() <= k,
    decreases k,
{
    if v >= 16 {
        assert(k >= 2) by {
            if k == 1 {
                reveal_with_fuel(pow16, 2);
                assert(pow16(1) == 16);
            }
        }
        assert(v / 16 < pow16((k - 1) as nat)) by (nonlinear_arith)
            requires
                v < 16 * pow16((k - 1) as nat),
        ;
        lemma_digits_len(v / 16, (k - 1) as nat);
    }
}

proof fn lemma_hex_digits_len(v: nat, k: nat)
    requires
        v < 0x1_0000_0000_0000_0000,
        k == 16,
    ensures
        digits_spec(v, 16).len() <= 16,
{
    reveal_with_fuel(pow16, 17);
    assert(pow16(16) == 0x1_0000_0000_0000_0000);
    lemma_digits_len(v, 16);
}

/// The characters a well-formed request id may hold.
pub open spec fn request_id_char(c: char) -> bool {
    ('a' <= c && c <= 'z') || ('A' <= c && c <= 'Z') || ('0' <= c && c <= '9') || c == '-' || c
        == '_' || c == '.' || c == ':'
}

/// A client-supplied request id is kept when it is 1 to 128 characters from the
/// allowed set (ASCII letters, digits, `-`, `_`, `.`, `:`); all of these are single bytes.
pub open spec fn valid_request_id_spec(value: Seq<char>) -> bool {
    0 < value.len() <= 128 && forall|i: int| 0 <= i < value.len() ==> request_id_char(
        #[trigger] value[i],
    )
}

pub fn valid_request_id(value: &str) -> (valid: bool)
    ensures
        valid == valid_request_id_spec(value@),
{
    let chars = chars_of(value);
    if chars.len() == 0 || chars.len() > 128 {
        return false;
    }
    let mut i: usize = 0;
    while i < chars.len()
        invariant
            chars@ == value@,
            i <= chars@.len(),
            forall|j: int| 0 <= j < i ==> request_id_char(#[trigger] chars@[j]),
        decreases chars@.len() - i,
    {
        let c = chars[i];
        if !(('a' <= c && c <= 'z') || ('A' <= c && c <= 'Z') || ('0' <= c && c <= '9') || c == '-'
            || c == '_' || c == '.' || c == ':') {
            return false;
        }
        i += 1;
    }
    true
}

/// A request id built from sixteen random bytes: `req-` and each byte as two
/// lower-case hexadecimal digits.
pub open spec fn random_request_id_spec(bytes: Seq<u8>) -> Seq<char> {
    "req-"@ + Seq::new(
        2 * bytes.len(),
        |i: int|
            if i % 2 == 0 {
                crate::numbers::digit_char((bytes[i / 2] / 16) as nat)
            } else {
                crate::numbers::digit_char((bytes[i / 2] % 16) as nat)
            },
    )
}

fn hex_digit(d: u8) -> (c: char)
    requires
        d < 16,
    ensures
        c == crate::numbers::digit_char(d as nat),
{
    if d < 10 {
        (d + 48) as char
    } else {
        (d + 87) as char
    }
}

pub fn random_request_id(bytes: &Vec<u8>) -> (id: String)
    requires
        bytes@.len() == 16,
    ensures
        id@ == random_request_id_spec(bytes@),
        id@.len() == 36,
{
    let mut id = String::from_str("req-");
    proof {
        reveal_strlit("req-");
    }
    let ghost target = random_request_id_spec(bytes@);
    let mut i: usize = 0;
    while i < 16
        invariant
            i <= 16,
            bytes@.len() == 16,
            target == random_request_id_spec(bytes@),
            "req-"@.len() == 4,
            target.len() == 36,
            id@ == target.subrange(0, 4 + 2 * i),
        decreases 16 - i,
    {
        let b = bytes[i];
        let hi = hex_digit(b / 16);
        let lo = hex_digit(b % 16);
        crate::text::push_char(&mut id, hi);
        crate::text::push_char(&mut id, lo);
        let ghost body = target.subrange(4, 36);
        assert(target[4 + 2 * i] == target.subrange(4, 36)[2 * i]);
        assert(target[4 + 2 * i] == hi);
        assert(target[4 + 2 * i + 1] == lo);
        assert(target.subrange(0, 4 + 2 * (i + 1)) =~= target.subrange(0, 4 + 2 * i).push(hi).push(
            lo,
        ));
        i += 1;
    }
    assert(target.subrange(0, 36) =~= target);
    id
}

/// A fresh random request id, or `None` when the operating system has no
/// randomness to give; callers then use `fallback_request_id`.
pub fn fresh_request_id() -> (id: Option<String>)
    ensures
        match id {
            Some(text) => text@.len() == 36 && exists|bytes: Seq<u8>| bytes.len() == 16
                && text@ == random_request_id_spec(bytes),
            None => true,
        },
{
    let mut bytes: Vec<u8> = vec![0u8; 16];
    if fill_random(&mut bytes) {
        Some(random_request_id(&bytes))
    } else {
        None
    }
}

/// Why structured logging could not be installed.
#[derive(Debug, Clone, PartialEq, Eq)]
pub enum TracingInitError {
    Filter(String),
    Install(String),
}

/// The body of the health endpoint.
#[derive(Debug, Clone, PartialEq, Eq)]
pub struct HealthDto {
    pub schema_version: u8,
    pub status: &'static str,
    pub version: &'static str,
}

/// The health report of a running server of the given version.
pub fn health(version: &'static str) -> (dto: HealthDto)
    ensures
        dto.schema_version == 1,
        dto.status@ == "ok"@,
        dto.version == version,
{
    HealthDto { schema_version: 1, status: "ok", version }
}

} // verus!
