//! Character-level text helpers with exact specifications.
//!
//! Strings are handled as sequences of `char`; every helper states its
//! result over `Seq<char>` so that the formatting and parsing functions of
//! the library can be specified precisely.

use vstd::prelude::*;
use vstd::std_specs::iter::IteratorSpec;

verus! {

/// Appends one character to a `String` (wraps `String::push`).
#[verifier::external_body]
pub(crate) fn push_char(s: &mut String, c: char)
    ensures
        final(s)@ == old(s)@.push(c),
{
    s.push(c);
}

/// Appends a string slice to a `String` (wraps `String::push_str`).
#[verifier::external_body]
pub(crate) fn push_str(s: &mut String, t: &str)
    ensures
        final(s)@ == old(s)@ + t@,
{
    s.push_str(t);
}

/// Returns the characters of `s` in order.
pub fn chars_of(s: &str) -> (v: Vec<char>)
    ensures
        v@ == s@,
{
    let mut v: Vec<char> = Vec::new();
    proof {
        broadcast use vstd::string::axiom_spec_iter;
    }
    for c in it: s.chars()
        invariant
            v@ == it.seq().take(it.index()),
            it.seq() == s@,
    {
        v.push(c);
        assert(v@ =~= it.seq().take(it.index() + 1));
    }
    assert(v@ =~= s@);
    v
}


/// The characters of `v`, collected into a `String`.
pub fn string_of(v: &Vec<char>) -> (s: String)
    ensures
        s@ == v@,
{
    let mut s = String::new();
    push_chars(&mut s, v);
    s
}

/// Appends every character of `v` to `s`.
pub fn push_chars(s: &mut String, v: &Vec<char>)
    ensures
        final(s)@ == old(s)@ + v@,
{
    let ghost start = s@;
    let mut i: usize = 0;
    while i < v.len()
        invariant
            i <= v.len(),
            s@ == start + v@.take(i as int),
        decreases v.len() - i,
    {
        push_char(s, v[i]);
        assert(v@.take(i + 1) =~= v@.take(i as int).push(v@[i as int]));
        i = i + 1;
    }
    assert(v@.take(i as int) =~= v@);
}

/// Appends the characters of `v` in `[from, to)` to `s`.
pub fn push_range(s: &mut String, v: &Vec<char>, from: usize, to: usize)
    requires
        from <= to <= v.len(),
    ensures
        final(s)@ == old(s)@ + v@.subrange(from as int, to as int),
{
    let ghost start = s@;
    let mut i: usize = from;
    while i < to
        invariant
            from <= i <= to <= v.len(),
            s@ == start + v@.subrange(from as int, i as int),
        decreases to - i,
    {
        push_char(s, v[i]);
        assert(v@.subrange(from as int, i + 1) =~= v@.subrange(from as int, i as int).push(
            v@[i as int],
        ));
        i = i + 1;
    }
}

/// `pat` occurs in `s` at index `i`.
pub open spec fn matches_at(s: Seq<char>, pat: Seq<char>, i: int) -> bool {
    0 <= i && i + pat.len() <= s.len() && s.subrange(i, i + pat.len()) == pat
}

/// The first index at or after `i` where `pat` occurs in `s`.
pub open spec fn find_from(s: Seq<char>, pat: Seq<char>, i: int) -> Option<int>
    decreases s.len() + 1 - i,
{
    if i < 0 || i + pat.len() > s.len() {
        None
    } else if s.subrange(i, i + pat.len()) == pat {
        Some(i)
    } else {
        find_from(s, pat, i + 1)
    }
}

/// The first index where `pat` occurs in `s`.
pub open spec fn find_first(s: Seq<char>, pat: Seq<char>) -> Option<int> {
    find_from(s, pat, 0)
}

/// `find_from` gives the least matching index at or after `i`.
pub proof fn lemma_find_from(s: Seq<char>, pat: Seq<char>, i: int)
    requires
        0 <= i,
    ensures
        find_from(s, pat, i) matches Some(k) ==> i <= k && matches_at(s, pat, k) && forall|j: int|
            i <= j < k ==> !matches_at(s, pat, j),
        find_from(s, pat, i) is None ==> forall|j: int| i <= j ==> !matches_at(s, pat, j),
    decreases s.len() + 1 - i,
{
    if i + pat.len() > s.len() {
    } else if s.subrange(i, i + pat.len()) == pat {
    } else {
        lemma_find_from(s, pat, i + 1);
    }
}

/// `s` has `p` as a prefix.
pub open spec fn has_prefix(s: Seq<char>, p: Seq<char>) -> bool {
    p.len() <= s.len() && s.subrange(0, p.len() as int) == p
}

/// Whether `pat` occurs in `v` at index `i`.
pub fn match_at(v: &Vec<char>, pat: &Vec<char>, i: usize) -> (r: bool)
    ensures
        r == matches_at(v@, pat@, i as int),
{
    if i > v.len() || pat.len() > v.len() - i {
        return false;
    }
    let mut k: usize = 0;
    while k < pat.len()
        invariant
            i + pat.len() <= v.len(),
            k <= pat.len(),
            forall|j: int| 0 <= j < k ==> v@[i + j] == pat@[j],
        decreases pat.len() - k,
    {
        if v[i + k] != pat[k] {
            assert(v@.subrange(i as int, i + pat.len())[k as int] != pat@[k as int]);
            return false;
        }
        k = k + 1;
    }
    assert(v@.subrange(i as int, i + pat.len()) =~= pat@);
    true
}

/// The first index at or after `from` where `pat` occurs in `v`.
pub fn find_in(v: &Vec<char>, pat: &Vec<char>, from: usize) -> (r: Option<usize>)
    ensures
        r matches Some(k) ==> find_from(v@, pat@, from as int) == Some(k as int),
        r matches Some(k) ==> from <= k && k + pat@.len() <= v@.len(),
        r is None ==> find_from(v@, pat@, from as int) is None,
{
    let mut i = from;
    while i <= v.len() && pat.len() <= v.len() - i
        invariant
            from <= i,
            find_from(v@, pat@, from as int) == find_from(v@, pat@, i as int),
        decreases v.len() + 1 - i,
    {
        if match_at(v, pat, i) {
            return Some(i);
        }
        if i == v.len() {
            assert(find_from(v@, pat@, i as int + 1) is None);
            assert(find_from(v@, pat@, i as int) is None);
            return None;
        }
        i = i + 1;
    }
    None
}

/// Whether `v` starts with `p`.
pub fn starts_with(v: &Vec<char>, p: &Vec<char>) -> (r: bool)
    ensures
        r == has_prefix(v@, p@),
{
    match_at(v, p, 0)
}

/// The characters of `v` in `[from, to)`.
pub fn slice_vec(v: &Vec<char>, from: usize, to: usize) -> (r: Vec<char>)
    requires
        from <= to <= v.len(),
    ensures
        r@ == v@.subrange(from as int, to as int),
{
    let mut r: Vec<char> = Vec::new();
    let mut i = from;
    while i < to
        invariant
            from <= i <= to <= v.len(),
            r@ == v@.subrange(from as int, i as int),
        decreases to - i,
    {
        r.push(v[i]);
        assert(r@ =~= v@.subrange(from as int, i + 1));
        i = i + 1;
    }
    r
}

/// Whether two character vectors are equal.
pub fn chars_eq(a: &Vec<char>, b: &Vec<char>) -> (r: bool)
    ensures
        r == (a@ == b@),
{
    if a.len() != b.len() {
        return false;
    }
    let r = match_at(a, b, 0);
    proof {
        if r {
            assert(a@.subrange(0, b@.len() as int) =~= a@);
        } else {
            assert(a@.subrange(0, b@.len() as int) =~= a@);
        }
    }
    r
}

/// Whether the text of `a` equals the text of `b`.
pub fn str_eq(a: &str, b: &str) -> (r: bool)
    ensures
        r == (a@ == b@),
{
    let va = chars_of(a);
    let vb = chars_of(b);
    chars_eq(&va, &vb)
}

/// The decimal digit character for `d`.
pub open spec fn digit_char(d: int) -> char {
    if d == 0 { '0' } else if d == 1 { '1' } else if d == 2 { '2' } else if d == 3 { '3' }
    else if d == 4 { '4' } else if d == 5 { '5' } else if d == 6 { '6' } else if d == 7 { '7' }
    else if d == 8 { '8' } else { '9' }
}

/// The value of a decimal digit character.
pub open spec fn digit_value(c: char) -> int {
    (c as int) - ('0' as int)
}

/// Whether `c` is an ASCII decimal digit.
pub open spec fn is_digit(c: char) -> bool {
    '0' <= c && c <= '9'
}

/// The decimal representation of `n` (no sign, no leading zeros).
pub open spec fn dec_nat(n: nat) -> Seq<char>
    decreases n,
{
    if n < 10 {
        seq![digit_char(n as int)]
    } else {
        dec_nat(n / 10) + seq![digit_char((n % 10) as int)]
    }
}

/// The decimal representation of `i`, with a leading `-` when negative.
pub open spec fn dec_int(i: int) -> Seq<char> {
    if i < 0 {
        seq!['-'] + dec_nat((-i) as nat)
    } else {
        dec_nat(i as nat)
    }
}

fn digit_to_char(d: u64) -> (c: char)
    requires
        d < 10,
    ensures
        c == digit_char(d as int),
{
    if d == 0 { '0' } else if d == 1 { '1' } else if d == 2 { '2' } else if d == 3 { '3' }
    else if d == 4 { '4' } else if d == 5 { '5' } else if d == 6 { '6' } else if d == 7 { '7' }
    else if d == 8 { '8' } else { '9' }
}

/// Appends the decimal representation of `n` to `s`.
pub fn push_u64(s: &mut String, n: u64)
    ensures
        final(s)@ == old(s)@ + dec_nat(n as nat),
{
    let mut acc: Vec<char> = Vec::new();
    let mut m = n;
    while m >= 10
        invariant
            dec_nat(n as nat) == dec_nat(m as nat) + acc@,
        decreases m,
    {
        let d = m % 10;
        let c = digit_to_char(d);
        acc.insert(0, c);
        assert(dec_nat(m as nat) == dec_nat((m / 10) as nat) + seq![digit_char((m % 10) as int)]);
        m = m / 10;
        assert(dec_nat(n as nat) =~= dec_nat(m as nat) + acc@);
    }
    let c = digit_to_char(m);
    acc.insert(0, c);
    assert(dec_nat(n as nat) =~= acc@);
    push_chars(s, &acc);
}

/// Appends the decimal representation of `n` to `s`.
pub fn push_i64(s: &mut String, n: i64)
    ensures
        final(s)@ == old(s)@ + dec_int(n as int),
{
    if n < 0 {
        push_char(s, '-');
        let m: u64 = if n == i64::MIN {
            9223372036854775808u64
        } else {
            (-n) as u64
        };
        push_u64(s, m);
        assert(final(s)@ =~= old(s)@ + dec_int(n as int));
    } else {
        push_u64(s, n as u64);
    }
}

/// The value of a sequence of decimal digits.
pub open spec fn digits_value(s: Seq<char>) -> nat
    decreases s.len(),
{
    if s.len() == 0 {
        0
    } else {
        digits_value(s.drop_last()) * 10 + (digit_value(s.last()) as nat)
    }
}

/// Whether every character of `s` is a decimal digit.
pub open spec fn all_digits(s: Seq<char>) -> bool {
    forall|i: int| 0 <= i < s.len() ==> is_digit(#[trigger] s[i])
}

/// The digits part accepted by unsigned integer parsing: an optional `+`
/// followed by the digits.
pub open spec fn unsigned_digits(s: Seq<char>) -> Seq<char> {
    if s.len() > 0 && s[0] == '+' {
        s.drop_first()
    } else {
        s
    }
}

/// What `str::parse::<usize>` gives: an optional `+`, then one or more
/// decimal digits whose value fits in `usize`.
pub open spec fn parse_usize_spec(s: Seq<char>) -> Option<usize> {
    let d = unsigned_digits(s);
    if d.len() > 0 && all_digits(d) && digits_value(d) <= usize::MAX {
        Some(digits_value(d) as usize)
    } else {
        None
    }
}

/// Parses an unsigned decimal number the way `str::parse::<usize>` does.
pub fn parse_usize(v: &Vec<char>) -> (r: Option<usize>)
    ensures
        r == parse_usize_spec(v@),
{
    let start: usize = if v.len() > 0 && v[0] == '+' {
        1
    } else {
        0
    };
    let ghost d = unsigned_digits(v@);
    assert(d =~= v@.subrange(start as int, v.len() as int));
    if start >= v.len() {
        return None;
    }
    let mut acc: usize = 0;
    let mut i = start;
    while i < v.len()
        invariant
            start <= i <= v.len(),
            d == v@.subrange(start as int, v.len() as int),
            d == unsigned_digits(v@),
            all_digits(d.take(i - start)),
            acc == digits_value(d.take(i - start)),
        decreases v.len() - i,
    {
        let c = v[i];
        assert(d.take(i + 1 - start).drop_last() =~= d.take(i - start));
        if !('0' <= c && c <= '9') {
            assert(d[i - start] == c);
            assert(!all_digits(d));
            return None;
        }
        let dv = (c as u32 - '0' as u32) as usize;
        if acc > (usize::MAX - dv) / 10 {
            proof {
                if all_digits(d) {
                    lemma_digits_value_prefix(d, (i + 1 - start) as int);
                    assert(digits_value(d.take(i + 1 - start)) == acc * 10 + dv);
                }
            }
            return None;
        }
        acc = acc * 10 + dv;
        i = i + 1;
    }
    assert(d.take(v.len() - start) =~= d);
    Some(acc)
}

/// The value of a digit prefix is at most the value of the whole sequence.
pub proof fn lemma_digits_value_prefix(d: Seq<char>, k: int)
    requires
        0 <= k <= d.len(),
        all_digits(d),
    ensures
        digits_value(d.take(k)) <= digits_value(d),
    decreases d.len(),
{
    if k == d.len() {
        assert(d.take(k) =~= d);
    } else {
        let e = d.drop_last();
        assert(all_digits(e)) by {
            assert forall|i: int| 0 <= i < e.len() implies is_digit(#[trigger] e[i]) by {
                assert(e[i] == d[i]);
            }
        }
        lemma_digits_value_prefix(e, k);
        assert(e.take(k) =~= d.take(k));
        assert(is_digit(d[d.len() - 1]));
    }
}


/// What `char::is_whitespace` accepts: the Unicode `White_Space` characters.
pub open spec fn is_ws(c: char) -> bool {
    ('\u{9}' <= c && c <= '\u{d}') || c == ' ' || c == '\u{85}' || c == '\u{a0}' || c == '\u{1680}'
        || ('\u{2000}' <= c && c <= '\u{200a}') || c == '\u{2028}' || c == '\u{2029}'
        || c == '\u{202f}' || c == '\u{205f}' || c == '\u{3000}'
}

/// Whether `c` is whitespace (`char::is_whitespace`).
pub fn is_whitespace(c: char) -> (r: bool)
    ensures
        r == is_ws(c),
{
    ('\u{9}' <= c && c <= '\u{d}') || c == ' ' || c == '\u{85}' || c == '\u{a0}' || c == '\u{1680}'
        || ('\u{2000}' <= c && c <= '\u{200a}') || c == '\u{2028}' || c == '\u{2029}'
        || c == '\u{202f}' || c == '\u{205f}' || c == '\u{3000}'
}

/// The index of the first non-whitespace character at or after `i`.
pub open spec fn skip_ws(s: Seq<char>, i: int) -> int
    decreases s.len() - i,
{
    if i < 0 {
        0
    } else if i >= s.len() {
        s.len() as int
    } else if is_ws(s[i]) {
        skip_ws(s, i + 1)
    } else {
        i
    }
}

/// The index just after the last non-whitespace character before `j`.
pub open spec fn trim_end_at(s: Seq<char>, j: int) -> int
    decreases j,
{
    if j <= 0 {
        0
    } else if j > s.len() {
        trim_end_at(s, s.len() as int)
    } else if is_ws(s[j - 1]) {
        trim_end_at(s, j - 1)
    } else {
        j
    }
}

/// `s` without leading and trailing whitespace (`str::trim`).
pub open spec fn trim_spec(s: Seq<char>) -> Seq<char> {
    let a = skip_ws(s, 0);
    let b = trim_end_at(s, s.len() as int);
    if a >= b {
        Seq::empty()
    } else {
        s.subrange(a, b)
    }
}

proof fn lemma_skip_ws_bounds(s: Seq<char>, i: int)
    ensures
        0 <= skip_ws(s, i) <= s.len(),
        i >= 0 ==> i <= skip_ws(s, i) || i > s.len(),
    decreases s.len() - i,
{
    if i >= 0 && i < s.len() && is_ws(s[i]) {
        lemma_skip_ws_bounds(s, i + 1);
    }
}

proof fn lemma_trim_end_bounds(s: Seq<char>, j: int)
    ensures
        0 <= trim_end_at(s, j) <= s.len(),
        0 <= j <= s.len() ==> trim_end_at(s, j) <= j,
    decreases j,
{
    if j > 0 {
        if j > s.len() {
            lemma_trim_end_bounds(s, s.len() as int);
        } else if is_ws(s[j - 1]) {
            lemma_trim_end_bounds(s, j - 1);
        }
    }
}

/// The index of the first non-whitespace character of `v`.
pub fn leading_ws(v: &Vec<char>) -> (r: usize)
    ensures
        r as int == skip_ws(v@, 0),
        r <= v.len(),
{
    let mut i: usize = 0;
    while i < v.len() && is_whitespace(v[i])
        invariant
            i <= v.len(),
            skip_ws(v@, i as int) == skip_ws(v@, 0),
        decreases v.len() - i,
    {
        i = i + 1;
    }
    i
}

/// `v` with leading and trailing whitespace removed.
pub fn trim_chars(v: &Vec<char>) -> (r: Vec<char>)
    ensures
        r@ == trim_spec(v@),
{
    let a = leading_ws(v);
    let mut b = v.len();
    while b > 0 && is_whitespace(v[b - 1])
        invariant
            b <= v.len(),
            trim_end_at(v@, b as int) == trim_end_at(v@, v.len() as int),
        decreases b,
    {
        b = b - 1;
    }
    if a >= b {
        Vec::new()
    } else {
        slice_vec(v, a, b)
    }
}

/// What parsing an unsigned integer type with maximum `max` accepts: an
/// optional `+`, then one or more decimal digits of value at most `max`.
pub open spec fn parse_bounded_spec(s: Seq<char>, max: nat) -> Option<nat> {
    let d = unsigned_digits(s);
    if d.len() > 0 && all_digits(d) && digits_value(d) <= max {
        Some(digits_value(d))
    } else {
        None
    }
}

/// Parses an unsigned decimal number of value at most `max` (as
/// `str::parse` does for an unsigned type whose maximum is `max`).
pub fn parse_bounded(v: &Vec<char>, max: u64) -> (r: Option<u64>)
    ensures
        r matches Some(n) ==> parse_bounded_spec(v@, max as nat) == Some(n as nat),
        r is None ==> parse_bounded_spec(v@, max as nat) is None,
{
    let start: usize = if v.len() > 0 && v[0] == '+' {
        1
    } else {
        0
    };
    let ghost d = unsigned_digits(v@);
    assert(d =~= v@.subrange(start as int, v.len() as int));
    if start >= v.len() {
        return None;
    }
    let mut acc: u64 = 0;
    let mut i = start;
    while i < v.len()
        invariant
            start <= i <= v.len(),
            d == v@.subrange(start as int, v.len() as int),
            d == unsigned_digits(v@),
            all_digits(d.take(i - start)),
            acc == digits_value(d.take(i - start)),
            acc <= max,
        decreases v.len() - i,
    {
        let c = v[i];
        assert(d.take(i + 1 - start).drop_last() =~= d.take(i - start));
        if !('0' <= c && c <= '9') {
            assert(d[i - start] == c);
            assert(!all_digits(d));
            return None;
        }
        let dv = (c as u32 - '0' as u32) as u64;
        if dv > max || acc > (max - dv) / 10 {
            proof {
                if all_digits(d) {
                    lemma_digits_value_prefix(d, (i + 1 - start) as int);
                    assert(digits_value(d.take(i + 1 - start)) == acc * 10 + dv);
                }
            }
            return None;
        }
        acc = acc * 10 + dv;
        i = i + 1;
    }
    assert(d.take(v.len() - start) =~= d);
    Some(acc)
}


/// The plain form of a sequence of strings.
pub open spec fn strs(v: Seq<String>) -> Seq<Seq<char>> {
    v.map_values(|s: String| s@)
}

/// The pieces of `parts` joined with `sep` between neighbours
/// (`[String]::join`).
pub open spec fn join(parts: Seq<Seq<char>>, sep: Seq<char>) -> Seq<char>
    decreases parts.len(),
{
    if parts.len() == 0 {
        Seq::empty()
    } else if parts.len() == 1 {
        parts[0]
    } else {
        join(parts.drop_last(), sep) + sep + parts.last()
    }
}

/// Joins `parts` with `sep` between neighbours.
pub fn join_strings(parts: &Vec<String>, sep: &str) -> (r: String)
    ensures
        r@ == join(strs(parts@), sep@),
{
    let mut r = String::new();
    let mut i: usize = 0;
    while i < parts.len()
        invariant
            i <= parts.len(),
            r@ == join(strs(parts@).take(i as int), sep@),
        decreases parts.len() - i,
    {
        let ghost before = strs(parts@).take(i as int);
        if i > 0 {
            push_str(&mut r, sep);
        }
        push_str(&mut r, parts[i].as_str());
        proof {
            let now = strs(parts@).take(i + 1);
            assert(now.drop_last() =~= before);
            if i == 0 {
                assert(now.len() == 1);
                assert(r@ =~= now[0]);
            }
        }
        i = i + 1;
    }
    assert(strs(parts@).take(parts.len() as int) =~= strs(parts@));
    r
}

/// Appends the decimal representation of `n` to `s`.
pub fn push_usize(s: &mut String, n: usize)
    ensures
        final(s)@ == old(s)@ + dec_nat(n as nat),
{
    push_u64(s, n as u64);
}

/// A copy of `s` (`String::clone`).
pub fn copy_string(s: &String) -> (r: String)
    ensures
        r@ == s@,
{
    s.as_str().to_string()
}

/// A copy of an optional string.
pub fn copy_opt(s: &Option<String>) -> (r: Option<String>)
    ensures
        opt_view(&r) == opt_view(s),
{
    match s {
        Some(x) => Some(x.as_str().to_string()),
        None => None,
    }
}

/// The plain form of an optional string.
pub open spec fn opt_view(s: &Option<String>) -> Option<Seq<char>> {
    match s {
        Some(x) => Some(x@),
        None => None,
    }
}

/// A copy of a vector of strings.
pub fn copy_strings(v: &Vec<String>) -> (r: Vec<String>)
    ensures
        strs(r@) == strs(v@),
{
    let mut r: Vec<String> = Vec::new();
    let mut i: usize = 0;
    while i < v.len()
        invariant
            i <= v.len(),
            r.len() == i,
            strs(r@) == strs(v@).take(i as int),
        decreases v.len() - i,
    {
        let c = copy_string(&v[i]);
        let ghost old_r = r@;
        r.push(c);
        proof {
            assert(r@ == old_r.push(c));
            assert forall|j: int| 0 <= j < i + 1 implies strs(r@)[j] == strs(v@).take(i + 1)[j] by {
                assert(strs(r@)[j] == r@[j]@);
                assert(strs(v@)[j] == v@[j]@);
                if j < i {
                    assert(r@[j] == old_r[j]);
                    assert(strs(old_r)[j] == old_r[j]@);
                    assert(strs(old_r)[j] == strs(v@).take(i as int)[j]);
                }
            }
            assert(strs(r@) =~= strs(v@).take(i + 1));
        }
        i = i + 1;
    }
    assert(strs(v@).take(v.len() as int) =~= strs(v@));
    r
}


/// Appends copies of the strings of `src` to `dst`.
pub fn extend_strings(dst: &mut Vec<String>, src: &Vec<String>)
    ensures
        strs(final(dst)@) == strs(old(dst)@) + strs(src@),
{
    let ghost start = strs(dst@);
    let mut i: usize = 0;
    while i < src.len()
        invariant
            i <= src.len(),
            strs(dst@) == start + strs(src@).take(i as int),
        decreases src.len() - i,
    {
        let c = copy_string(&src[i]);
        let ghost before = dst@;
        dst.push(c);
        proof {
            assert(dst@ == before.push(c));
            assert(strs(dst@) =~= strs(before).push(c@));
            assert(strs(src@).take(i + 1) =~= strs(src@).take(i as int).push(src@[i as int]@));
            assert(strs(dst@) =~= start + strs(src@).take(i + 1));
        }
        i = i + 1;
    }
    assert(strs(src@).take(src.len() as int) =~= strs(src@));
}


/// `s` padded on the left with `0` to width `w`.
pub open spec fn zpad(s: Seq<char>, w: nat) -> Seq<char> {
    if s.len() < w {
        Seq::new((w - s.len()) as nat, |i: int| '0') + s
    } else {
        s
    }
}

/// Appends the decimal representation of `n`, padded with `0` to width
/// `w` (`format!("{:0w$}", n)`).
pub fn push_padded(s: &mut String, n: u64, w: usize)
    ensures
        final(s)@ == old(s)@ + zpad(dec_nat(n as nat), w as nat),
{
    let mut digits = String::new();
    push_u64(&mut digits, n);
    let len = digits.as_str().unicode_len();
    let ghost start = s@;
    if len < w {
        let mut k: usize = 0;
        while k < w - len
            invariant
                k <= w - len,
                len == dec_nat(n as nat).len(),
                s@ == start + Seq::new(k as nat, |i: int| '0'),
            decreases w - len - k,
        {
            push_char(s, '0');
            assert(s@ =~= start + Seq::new((k + 1) as nat, |i: int| '0'));
            k = k + 1;
        }
    }
    push_str(s, digits.as_str());
    assert(final(s)@ =~= start + zpad(dec_nat(n as nat), w as nat));
}


/// The pieces of `s` between occurrences of `pat` (`str::split(pat)`,
/// for a non-empty `pat`).
pub open spec fn split_on(s: Seq<char>, pat: Seq<char>) -> Seq<Seq<char>>
    decreases s.len(),
{
    match find_first(s, pat) {
        None => seq![s],
        Some(i) => if pat.len() > 0 && 0 <= i && i + pat.len() <= s.len() {
            seq![s.take(i)] + split_on(s.skip(i + pat.len()), pat)
        } else {
            seq![s]
        },
    }
}

/// Splits `s` at every occurrence of the non-empty `pat`.
pub fn split_str(s: &str, pat: &str) -> (r: Vec<String>)
    requires
        pat@.len() > 0,
    ensures
        strs(r@) == split_on(s@, pat@),
{
    let v = chars_of(s);
    let p = chars_of(pat);
    let mut out: Vec<String> = Vec::new();
    let mut start: usize = 0;
    assert(v@.skip(0) =~= v@);
    assert(strs(out@) =~= Seq::<Seq<char>>::empty());
    assert(strs(out@) + split_on(v@.skip(0), p@) =~= split_on(v@, p@));
    while start <= v.len()
        invariant
            start <= v.len(),
            p@ == pat@,
            p@.len() > 0,
            v@ == s@,
            strs(out@) + split_on(v@.skip(start as int), p@) == split_on(v@, p@),
        decreases v.len() + 1 - start,
    {
        let rest = slice_vec(&v, start, v.len());
        assert(rest@ =~= v@.skip(start as int));
        match find_in(&rest, &p, 0) {
            None => {
                let piece = string_of(&rest);
                let ghost before = out@;
                out.push(piece);
                proof {
                    assert(out@ == before.push(piece));
                    assert(strs(out@) =~= strs(before).push(rest@));
                    assert(split_on(rest@, p@) == seq![rest@]);
                    assert(strs(out@) =~= strs(before) + split_on(rest@, p@));
                }
                return out;
            },
            Some(i) => {
                proof {
                    lemma_find_from(rest@, p@, 0);
                }
                let head = slice_vec(&rest, 0, i);
                let piece = string_of(&head);
                let ghost before = out@;
                out.push(piece);
                proof {
                    assert(head@ =~= rest@.take(i as int));
                    assert(out@ == before.push(piece));
                    assert(strs(out@) =~= strs(before).push(rest@.take(i as int)));
                    assert(rest@.skip(i + p@.len()) =~= v@.skip(start + i + p@.len()));
                    let tail = split_on(rest@.skip(i + p@.len()), p@);
                    assert(split_on(rest@, p@) == seq![rest@.take(i as int)] + tail);
                    assert(strs(out@) + tail =~= strs(before) + split_on(rest@, p@));
                }
                start = start + i + p.len();
            },
        }
    }
    out
}


// ---------------------------------------------------------------------------
// UTF-8 positions
// ---------------------------------------------------------------------------

/// The number of bytes of `c` in UTF-8.
pub open spec fn char_utf8_len(c: char) -> nat {
    if (c as u32) < 0x80 {
        1
    } else if (c as u32) < 0x800 {
        2
    } else if (c as u32) < 0x10000 {
        3
    } else {
        4
    }
}

/// The number of bytes of `s` in UTF-8.
pub open spec fn utf8_len(s: Seq<char>) -> nat
    decreases s.len(),
{
    if s.len() == 0 {
        0
    } else {
        utf8_len(s.drop_last()) + char_utf8_len(s.last())
    }
}

/// The byte offset of character `i` of `s`.
pub open spec fn byte_pos(s: Seq<char>, i: int) -> nat {
    utf8_len(s.take(i))
}

/// The character whose first byte is at byte offset `b`, or the end of the
/// text when `b` is its length; `None` when `b` falls inside a character
/// or past the end.
pub open spec fn char_at_byte(s: Seq<char>, b: int) -> Option<int> {
    if exists|c: int| 0 <= c <= s.len() && #[trigger] byte_pos(s, c) == b {
        Some(choose|c: int| 0 <= c <= s.len() && #[trigger] byte_pos(s, c) == b)
    } else {
        None
    }
}

pub proof fn lemma_byte_pos_step(s: Seq<char>, i: int)
    requires
        0 <= i < s.len(),
    ensures
        byte_pos(s, i + 1) == byte_pos(s, i) + char_utf8_len(s[i]),
{
    assert(s.take(i + 1).drop_last() =~= s.take(i));
}

/// Byte offsets grow strictly with the character index.
pub proof fn lemma_byte_pos_mono(s: Seq<char>, i: int, j: int)
    requires
        0 <= i <= j <= s.len(),
    ensures
        byte_pos(s, i) <= byte_pos(s, j),
        i < j ==> byte_pos(s, i) < byte_pos(s, j),
    decreases j - i,
{
    if i < j {
        lemma_byte_pos_step(s, j - 1);
        lemma_byte_pos_mono(s, i, j - 1);
    }
}

/// The byte offset of character `i`.
pub fn char_to_byte(v: &Vec<char>, i: usize) -> (r: usize)
    requires
        i <= v.len(),
        utf8_len(v@) <= usize::MAX,
    ensures
        r == byte_pos(v@, i as int),
{
    let mut k: usize = 0;
    let mut b: usize = 0;
    proof {
        assert(v@.take(0) =~= Seq::<char>::empty());
        assert(v@.take(v.len() as int) =~= v@);
    }
    while k < i
        invariant
            k <= i <= v.len(),
            b == byte_pos(v@, k as int),
            utf8_len(v@) <= usize::MAX,
            byte_pos(v@, v.len() as int) == utf8_len(v@),
        decreases i - k,
    {
        proof {
            lemma_byte_pos_step(v@, k as int);
            lemma_byte_pos_mono(v@, k + 1, v.len() as int);
        }
        let c = v[k];
        let code: u32 = c as u32;
        let n: usize = if code < 0x80 { 1 } else if code < 0x800 { 2 } else if code < 0x10000 { 3 } else { 4 };
        b = b + n;
        k = k + 1;
    }
    b
}

/// The character at byte offset `b` (see [`char_at_byte`]).
pub fn byte_to_char(v: &Vec<char>, b: usize) -> (r: Option<usize>)
    ensures
        match r {
            Some(c) => char_at_byte(v@, b as int) == Some(c as int) && c <= v.len(),
            None => char_at_byte(v@, b as int) is None,
        },
{
    let mut k: usize = 0;
    let mut p: u128 = 0;
    let target: u128 = b as u128;
    proof {
        assert(v@.take(0) =~= Seq::<char>::empty());
        assert(v@.take(v.len() as int) =~= v@);
    }
    while k < v.len() && p < target
        invariant
            k <= v.len(),
            p == byte_pos(v@, k as int),
            p <= 4 * k,
            target == b,
            forall|c: int| 0 <= c < k ==> byte_pos(v@, c) < b,
        decreases v.len() - k,
    {
        proof {
            lemma_byte_pos_step(v@, k as int);
        }
        let c = v[k];
        let code: u32 = c as u32;
        let n: u128 = if code < 0x80 { 1 } else if code < 0x800 { 2 } else if code < 0x10000 { 3 } else { 4 };
        p = p + n;
        k = k + 1;
    }
    if p == target {
        proof {
            assert(byte_pos(v@, k as int) == b);
            assert forall|c: int| 0 <= c <= v.len() && #[trigger] byte_pos(v@, c) == b implies c == k by {
                if c < k {
                    lemma_byte_pos_mono(v@, c, k as int);
                } else if c > k {
                    lemma_byte_pos_mono(v@, k as int, c);
                }
            }
        }
        Some(k)
    } else {
        proof {
            assert forall|c: int| 0 <= c <= v.len() implies #[trigger] byte_pos(v@, c) != b by {
                if c > k {
                    lemma_byte_pos_mono(v@, k as int, c);
                } else if c == k {
                } 
            }
        }
        None
    }
}

}
