//! Task IDs: UUIDv7 values, their canonical hyphenated text and their
//! compact base62 text.
//!
//! IDs are always stored in canonical hyphenated UUIDv7 form.  Base62 is an
//! alternative compact encoding accepted on input and used for display.

use vstd::prelude::*;
use vstd::arithmetic::power::pow;
use crate::text::push_str;

verus! {

broadcast use vstd::string::group_string_axioms;

// ---------------------------------------------------------------------------
// Model
// ---------------------------------------------------------------------------

/// The version field of a UUID (the high nibble of its seventh byte) is 7.
pub open spec fn is_v7_spec(v: u128) -> bool {
    (v >> 76u128) & 0xfu128 == 7
}

/// The lower-case hexadecimal digit of `d` (`0 <= d < 16`).
pub open spec fn hex_char(d: int) -> char {
    if d < 10 {
        (48 + d) as char
    } else {
        (87 + d) as char
    }
}

/// The 32 lower-case hexadecimal digits of `v`, most significant first.
pub open spec fn hex32(v: u128) -> Seq<char> {
    Seq::new(32, |i: int| hex_char((v as int / pow(16, (31 - i) as nat)) % 16))
}

/// The canonical hyphenated text of a UUID: `8-4-4-4-12` lower-case hex
/// digits.
pub open spec fn hyphenated(v: u128) -> Seq<char> {
    let h = hex32(v);
    h.subrange(0, 8) + seq!['-'] + h.subrange(8, 12) + seq!['-'] + h.subrange(12, 16)
        + seq!['-'] + h.subrange(16, 20) + seq!['-'] + h.subrange(20, 32)
}

/// The base62 digit of `d` in the standard alphabet (`0-9`, `A-Z`, `a-z`).
pub open spec fn b62_char(d: int) -> char {
    if d < 10 {
        (48 + d) as char
    } else if d < 36 {
        (55 + d) as char
    } else {
        (61 + d) as char
    }
}

/// The value of a base62 digit, if `c` is one.
pub open spec fn b62_digit(c: char) -> Option<int> {
    if '0' <= c <= '9' {
        Some(c as int - 48)
    } else if 'A' <= c <= 'Z' {
        Some(c as int - 55)
    } else if 'a' <= c <= 'z' {
        Some(c as int - 61)
    } else {
        None
    }
}

/// The base62 text of `n`, without leading zeros (`"0"` for zero).
pub open spec fn b62_encode(n: nat) -> Seq<char>
    decreases n,
{
    if n < 62 {
        seq![b62_char(n as int)]
    } else {
        b62_encode(n / 62).push(b62_char((n % 62) as int))
    }
}

/// Every character of `s` is a base62 digit.
pub open spec fn b62_digits(s: Seq<char>) -> bool {
    forall|i: int| 0 <= i < s.len() ==> (#[trigger] b62_digit(s[i])) is Some
}

/// The value of a text of base62 digits.
pub open spec fn b62_value(s: Seq<char>) -> nat
    decreases s.len(),
{
    if s.len() == 0 {
        0
    } else {
        let d = match b62_digit(s.last()) {
            Some(d) => d,
            None => 0,
        };
        (b62_value(s.drop_last()) * 62 + d) as nat
    }
}

/// What base62 decoding gives: the value of a non-empty text of base62
/// digits whose value fits in 128 bits.
pub open spec fn b62_decode(s: Seq<char>) -> Option<u128> {
    if s.len() > 0 && b62_digits(s) && b62_value(s) <= u128::MAX {
        Some(b62_value(s) as u128)
    } else {
        None
    }
}

/// The UUID that `uuid::Uuid::parse_str` reads from a text, if any.
pub uninterp spec fn uuid_parsed(s: Seq<char>) -> Option<u128>;

// ---------------------------------------------------------------------------
// Calls into `uuid` and `base62`
// ---------------------------------------------------------------------------

/// Calls `uuid::Uuid::parse_str`.  Trusted: the result is the named
/// `uuid_parsed`; the crate accepts only inputs of 32, 36, 38 or 45 ASCII
/// characters, and parses every text that it formats itself, such as the
/// hyphenated form.
#[verifier::external_body]
fn parse_uuid(s: &str) -> (r: Option<u128>)
    ensures
        r == uuid_parsed(s@),
        r is Some ==> s@.len() == 32 || s@.len() == 36 || s@.len() == 38 || s@.len() == 45,
        forall|v: u128| #[trigger] hyphenated(v) == s@ ==> r == Some(v),
{
    match uuid::Uuid::parse_str(s) {
        Ok(u) => Some(u.as_u128()),
        Err(_) => None,
    }
}

/// Calls `Uuid::to_string` (its `Display` form).  Trusted: the text is the
/// hyphenated lower-case form.
#[verifier::external_body]
fn uuid_text(v: u128) -> (r: String)
    ensures
        r@ == hyphenated(v),
{
    uuid::Uuid::from_u128(v).to_string()
}

/// Calls `uuid::Uuid::now_v7`.  Trusted: the result is a version 7 UUID;
/// its value otherwise depends on the clock and on chance.
#[verifier::external_body]
fn uuid_now_v7() -> (r: u128)
    ensures
        is_v7_spec(r),
{
    uuid::Uuid::now_v7().as_u128()
}

/// Calls `base62::encode`.  Trusted: the text is the standard-alphabet
/// base62 form of `n` without leading zeros.
#[verifier::external_body]
fn base62_encode(n: u128) -> (r: String)
    ensures
        r@ == b62_encode(n as nat),
{
    base62::encode(n)
}

/// Calls `base62::decode` on the bytes of `s`.  Trusted: it succeeds
/// exactly on non-empty texts of standard base62 digits whose value fits
/// in a `u128`, and gives that value.
#[verifier::external_body]
fn base62_decode(s: &str) -> (r: Option<u128>)
    ensures
        r == b62_decode(s@),
{
    match base62::decode(s.as_bytes()) {
        Ok(v) => Some(v),
        Err(_) => None,
    }
}

// ---------------------------------------------------------------------------
// Task IDs
// ---------------------------------------------------------------------------

/// Whether `v` is a version 7 UUID.
pub fn is_v7(v: u128) -> (r: bool)
    ensures
        r == is_v7_spec(v),
{
    (v >> 76u128) & 0xfu128 == 7
}

/// Generates a new UUIDv7 and returns its hyphenated text.
pub fn new_id() -> (r: String)
    ensures
        exists|v: u128| is_v7_spec(v) && r@ == hyphenated(v),
{
    let v = uuid_now_v7();
    uuid_text(v)
}

/// What `encode_base62` gives for a text.
pub open spec fn encode_base62_spec(s: Seq<char>) -> Option<Seq<char>> {
    match uuid_parsed(s) {
        Some(v) => Some(b62_encode(v as nat)),
        None => None,
    }
}

/// Encodes a UUID text as base62; `None` if the text is not a UUID.
pub fn encode_base62(uuid_str: &str) -> (r: Option<String>)
    ensures
        r matches Some(b) ==> encode_base62_spec(uuid_str@) == Some(b@),
        r is None ==> encode_base62_spec(uuid_str@) is None,
        forall|v: u128| #[trigger] hyphenated(v) == uuid_str@ ==> (r matches Some(b) && b@ == b62_encode(v as nat)),
{
    match parse_uuid(uuid_str) {
        Some(v) => Some(base62_encode(v)),
        None => None,
    }
}

/// The error texts of task-ID parsing.
pub open spec fn not_v7_message(input: Seq<char>) -> Seq<char> {
    "'"@ + input + "' is a valid UUID but not UUIDv7"@
}

pub open spec fn decoded_not_v7_message(input: Seq<char>) -> Seq<char> {
    "'"@ + input + "' decodes to a UUID but not UUIDv7"@
}

pub open spec fn invalid_id_message(input: Seq<char>) -> Seq<char> {
    "'"@ + input + "' is not a valid UUIDv7 or base62 ID"@
}

/// How a task-ID text resolves, given what UUID parsing gave for it.
pub open spec fn resolve_task_id_spec(input: Seq<char>, parsed: Option<u128>) -> Result<
    Seq<char>,
    Seq<char>,
> {
    match parsed {
        Some(v) => if is_v7_spec(v) {
            Ok(hyphenated(v))
        } else {
            Err(not_v7_message(input))
        },
        None => match b62_decode(input) {
            Some(v) => if is_v7_spec(v) {
                Ok(hyphenated(v))
            } else {
                Err(decoded_not_v7_message(input))
            },
            None => Err(invalid_id_message(input)),
        },
    }
}

/// The plain form of a `Result<String, String>`.
pub open spec fn sres(r: &Result<String, String>) -> Result<Seq<char>, Seq<char>> {
    match r {
        Ok(s) => Ok(s@),
        Err(e) => Err(e@),
    }
}

fn quoted_error(input: &str, tail: &str) -> (r: String)
    ensures
        r@ == "'"@ + input@ + tail@,
{
    let mut m = String::new();
    push_str(&mut m, "'");
    push_str(&mut m, input);
    push_str(&mut m, tail);
    m
}

/// Resolves a task-ID text to its canonical form, given the result of
/// parsing it as a UUID: a UUIDv7 is accepted as it is, else the text is
/// decoded as base62.
pub fn resolve_task_id(input: &str, parsed: Option<u128>) -> (r: Result<String, String>)
    ensures
        sres(&r) == resolve_task_id_spec(input@, parsed),
{
    match parsed {
        Some(v) => {
            if is_v7(v) {
                Ok(uuid_text(v))
            } else {
                Err(quoted_error(input, "' is a valid UUID but not UUIDv7"))
            }
        },
        None => match base62_decode(input) {
            Some(v) => {
                if is_v7(v) {
                    Ok(uuid_text(v))
                } else {
                    Err(quoted_error(input, "' decodes to a UUID but not UUIDv7"))
                }
            },
            None => Err(quoted_error(input, "' is not a valid UUIDv7 or base62 ID")),
        },
    }
}

/// Parses a task ID that is either a hyphenated UUIDv7 or a base62-encoded
/// UUIDv7, and returns the canonical hyphenated form.
pub fn parse_task_id(input: &str) -> (r: Result<String, String>)
    ensures
        sres(&r) == resolve_task_id_spec(input@, uuid_parsed(input@)),
        input@.len() < 32 ==> sres(&r) == resolve_task_id_spec(input@, None),
        forall|v: u128| #[trigger] hyphenated(v) == input@ ==> sres(&r) == resolve_task_id_spec(input@, Some(v)),
{
    let parsed = parse_uuid(input);
    resolve_task_id(input, parsed)
}

/// Whether a text is a valid task ID (UUIDv7 or base62-encoded UUIDv7).
pub fn is_valid_task_id(input: &str) -> (r: bool)
    ensures
        r == resolve_task_id_spec(input@, uuid_parsed(input@)) is Ok,
{
    parse_task_id(input).is_ok()
}

// ---------------------------------------------------------------------------
// Laws
// ---------------------------------------------------------------------------

proof fn lemma_b62_char_digit(d: int)
    requires
        0 <= d < 62,
    ensures
        b62_digit(b62_char(d)) == Some(d),
{
}

proof fn lemma_b62_encode(n: nat)
    ensures
        b62_digits(b62_encode(n)),
        b62_value(b62_encode(n)) == n,
        b62_encode(n).len() >= 1,
    decreases n,
{
    if n < 62 {
        lemma_b62_char_digit(n as int);
        let s = b62_encode(n);
        assert(s.drop_last() =~= Seq::<char>::empty());
        assert(b62_value(s.drop_last()) == 0);
    } else {
        lemma_b62_encode(n / 62);
        lemma_b62_char_digit((n % 62) as int);
        let p = b62_encode(n / 62);
        let s = p.push(b62_char((n % 62) as int));
        assert(s.drop_last() =~= p);
        assert forall|i: int| 0 <= i < s.len() implies (#[trigger] b62_digit(s[i])) is Some by {
            if i < p.len() {
                assert(s[i] == p[i]);
            }
        }
        assert(n == (n / 62) * 62 + n % 62) by (nonlinear_arith);
    }
}

/// `62` to the power `k`.
spec fn p62(k: nat) -> nat
    decreases k,
{
    if k == 0 {
        1
    } else {
        62 * p62((k - 1) as nat)
    }
}

proof fn lemma_b62_encode_len(n: nat, k: nat)
    requires
        n < p62(k),
        k >= 1,
    ensures
        b62_encode(n).len() <= k,
    decreases n,
{
    if n >= 62 {
        let k1 = (k - 1) as nat;
        if k == 1 {
            assert(p62(1) == 62 * p62(0));
        }
        assert(n / 62 < p62(k1));
        lemma_b62_encode_len(n / 62, k1);
    }
}

/// The base62 text of any 128-bit value has at most 22 characters.
proof fn lemma_b62_short(v: u128)
    ensures
        b62_encode(v as nat).len() <= 22,
{
    reveal_with_fuel(p62, 23);
    assert(p62(22) == 2707803647802660400290261537185326956544nat);
    lemma_b62_encode_len(v as nat, 22);
}

/// Base62 round trip: the base62 text of a UUIDv7 is short enough never
/// to be read as a UUID text, and resolves to the UUID's canonical text.
pub proof fn law_base62_roundtrip(v: u128)
    requires
        is_v7_spec(v),
    ensures
        b62_encode(v as nat).len() < 32,
        resolve_task_id_spec(b62_encode(v as nat), None) == Ok::<Seq<char>, Seq<char>>(
            hyphenated(v),
        ),
{
    lemma_b62_short(v);
    lemma_b62_encode(v as nat);
}

/// A UUIDv7 resolves to its canonical text.
pub proof fn law_canonical_id(v: u128)
    requires
        is_v7_spec(v),
    ensures
        resolve_task_id_spec(hyphenated(v), Some(v)) == Ok::<Seq<char>, Seq<char>>(hyphenated(v)),
{
}

}
