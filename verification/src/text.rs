//! Character-level text helpers: extracting the characters of a string,
//! ASCII case folding, lexicographic ordering and decimal formatting.
//!
//! Node and port identifiers are ordinary strings; everything the library
//! decides about them (category matching, column ordering, generated names)
//! is defined character by character over their views.

use vstd::prelude::*;

verus! {

/// The code point of `c`, with an upper-case ASCII letter folded to lower
/// case; other characters are unchanged.
pub open spec fn lower_code(c: char) -> u32 {
    if 65 <= c as u32 && c as u32 <= 90 {
        (c as u32 + 32) as u32
    } else {
        c as u32
    }
}

/// `s` starts with `p`, compared case-insensitively (ASCII folding).
pub open spec fn folded_starts_with(s: Seq<char>, p: Seq<char>) -> bool {
    p.len() <= s.len() && forall|j: int|
        0 <= j < p.len() ==> lower_code(s[j]) == lower_code(p[j])
}

/// `p` occurs in `s` starting at offset `k`, compared case-insensitively.
pub open spec fn folded_match_at(s: Seq<char>, p: Seq<char>, k: int) -> bool {
    0 <= k && k + p.len() <= s.len() && forall|j: int|
        0 <= j < p.len() ==> lower_code(s[k + j]) == lower_code(p[j])
}

/// `p` occurs somewhere in `s`, compared case-insensitively.
pub open spec fn folded_contains(s: Seq<char>, p: Seq<char>) -> bool {
    exists|k: int| folded_match_at(s, p, k)
}

/// Strict lexicographic order on character sequences by code point. This is
/// the order `str` comparison gives, since UTF-8 byte order agrees with code
/// point order.
pub open spec fn lex_lt(a: Seq<char>, b: Seq<char>) -> bool
    decreases a.len(),
{
    if b.len() == 0 {
        false
    } else if a.len() == 0 {
        true
    } else if (a[0] as u32) < (b[0] as u32) {
        true
    } else if (a[0] as u32) > (b[0] as u32) {
        false
    } else {
        lex_lt(a.drop_first(), b.drop_first())
    }
}

/// The characters of `s`, in order.
pub fn chars_of(s: &str) -> (r: Vec<char>)
    ensures
        r@ == s@,
{
    let mut r: Vec<char> = Vec::new();
    for c in it: s.chars()
        invariant
            r@ == it.seq().take(it.index()),
            it.seq() == s@,
    {
        r.push(c);
    }
    assert(r@ =~= s@);
    r
}

/// Case folding of one character, as `lower_code` describes.
pub fn lower_code_of(c: char) -> (r: u32)
    ensures
        r == lower_code(c),
{
    let u = c as u32;
    if 65 <= u && u <= 90 {
        u + 32
    } else {
        u
    }
}

/// Case-insensitive prefix test.
pub fn starts_with_folded(s: &Vec<char>, p: &Vec<char>) -> (r: bool)
    ensures
        r == folded_starts_with(s@, p@),
{
    if p.len() > s.len() {
        return false;
    }
    let mut j: usize = 0;
    while j < p.len()
        invariant
            0 <= j <= p.len(),
            p.len() <= s.len(),
            forall|i: int| 0 <= i < j ==> lower_code(s@[i]) == lower_code(p@[i]),
        decreases p.len() - j,
    {
        if lower_code_of(s[j]) != lower_code_of(p[j]) {
            return false;
        }
        j += 1;
    }
    true
}

/// Case-insensitive match of `p` in `s` at offset `k`.
fn match_at_folded(s: &Vec<char>, p: &Vec<char>, k: usize) -> (r: bool)
    requires
        k + p@.len() <= s@.len(),
    ensures
        r == folded_match_at(s@, p@, k as int),
{
    let total = s.len();
    assert(total == s@.len() && s@.len() <= usize::MAX as int);
    let mut j: usize = 0;
    while j < p.len()
        invariant
            0 <= j <= p.len(),
            k + p@.len() <= s@.len(),
            s@.len() <= usize::MAX as int,
            forall|i: int| 0 <= i < j ==> lower_code(s@[k + i]) == lower_code(p@[i]),
        decreases p.len() - j,
    {
        if lower_code_of(s[k + j]) != lower_code_of(p[j]) {
            return false;
        }
        j += 1;
    }
    true
}

/// Case-insensitive substring test.
pub fn contains_folded(s: &Vec<char>, p: &Vec<char>) -> (r: bool)
    ensures
        r == folded_contains(s@, p@),
{
    if p.len() > s.len() {
        assert(forall|k: int| !folded_match_at(s@, p@, k));
        return false;
    }
    if p.len() == 0 {
        assert(folded_match_at(s@, p@, 0));
        return true;
    }
    let mut k: usize = 0;
    let last = s.len() - p.len();
    while k <= last
        invariant
            0 <= k <= last + 1,
            last == s@.len() - p@.len(),
            1 <= p@.len() <= s@.len(),
            s@.len() <= usize::MAX as int,
            forall|i: int| 0 <= i < k ==> !folded_match_at(s@, p@, i),
        decreases last + 1 - k,
    {
        if match_at_folded(s, p, k) {
            return true;
        }
        k += 1;
    }
    assert(forall|i: int| folded_match_at(s@, p@, i) ==> 0 <= i <= last);
    false
}

/// Strict lexicographic comparison, as `lex_lt` describes.
pub fn lex_lt_chars(a: &Vec<char>, b: &Vec<char>) -> (r: bool)
    ensures
        r == lex_lt(a@, b@),
{
    let mut i: usize = 0;
    assert(a@.skip(0) =~= a@);
    assert(b@.skip(0) =~= b@);
    loop
        invariant
            0 <= i <= a@.len(),
            0 <= i <= b@.len(),
            lex_lt(a@, b@) == lex_lt(a@.skip(i as int), b@.skip(i as int)),
        decreases a@.len() - i,
    {
        if i == b.len() {
            assert(b@.skip(i as int).len() == 0);
            return false;
        }
        if i == a.len() {
            assert(a@.skip(i as int).len() == 0 && b@.skip(i as int).len() > 0);
            return true;
        }
        let ca = a[i] as u32;
        let cb = b[i] as u32;
        assert(a@.skip(i as int)[0] == a@[i as int] && b@.skip(i as int)[0] == b@[i as int]);
        if ca < cb {
            return true;
        }
        if ca > cb {
            return false;
        }
        assert(a@.skip(i as int).drop_first() =~= a@.skip(i + 1));
        assert(b@.skip(i as int).drop_first() =~= b@.skip(i + 1));
        i += 1;
    }
}

/// The character for a decimal digit.
pub open spec fn digit_char(d: int) -> char {
    ((48 + d) as u8) as char
}

/// The decimal digits of `n`, most significant first.
pub open spec fn dec_digits(n: int) -> Seq<char>
    decreases n,
{
    if n < 10 {
        seq![digit_char(if n < 0 { 0 } else { n })]
    } else {
        dec_digits(n / 10).push(digit_char(n % 10))
    }
}

/// The decimal digits of `n`, written into a character vector.
pub fn push_decimal(out: &mut Vec<char>, n: u64)
    ensures
        final(out)@ == old(out)@ + dec_digits(n as int),
    decreases n,
{
    if n < 10 {
        let c = (48 + n as u8) as char;
        out.push(c);
        assert(out@ =~= old(out)@ + dec_digits(n as int));
    } else {
        push_decimal(out, n / 10);
        let c = (48 + (n % 10) as u8) as char;
        out.push(c);
        assert(out@ =~= old(out)@ + dec_digits(n as int));
    }
}

/// Whether a string has no characters.
pub fn str_is_empty(s: &str) -> (r: bool)
    ensures
        r == (s@.len() == 0),
{
    let cs = chars_of(s);
    cs.is_empty()
}

/// Character-sequence equality.
pub fn chars_eq(a: &Vec<char>, b: &Vec<char>) -> (r: bool)
    ensures
        r == (a@ == b@),
{
    if a.len() != b.len() {
        return false;
    }
    let mut i: usize = 0;
    while i < a.len()
        invariant
            0 <= i <= a@.len(),
            a@.len() == b@.len(),
            forall|j: int| 0 <= j < i ==> a@[j] == b@[j],
        decreases a@.len() - i,
    {
        if a[i] != b[i] {
            return false;
        }
        i += 1;
    }
    proof {
        assert(a@ =~= b@);
    }
    true
}

/// Builds a `String` from its characters.
///
/// Relies on `String`'s `FromIterator` impl: collecting characters yields
/// the string whose characters are exactly those collected, in order.
#[verifier::external_body]
pub(crate) fn string_from_chars(v: &Vec<char>) -> (s: String)
    ensures
        s@ == v@,
{
    v.iter().collect()
}

} // verus!
