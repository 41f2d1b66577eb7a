//! Character-level helpers shared by the naming scheme and the emitter.

use vstd::prelude::*;

verus! {

/// Whether a character lies in the ASCII range.
pub open spec fn is_ascii_char(c: char) -> bool {
    (c as u32) < 128
}

/// How `char::is_alphanumeric` classifies a character outside the ASCII
/// range; named, not spelled out.
pub uninterp spec fn alphanumeric_ext(c: char) -> bool;

/// How `char::is_whitespace` classifies a character outside the ASCII
/// range; named, not spelled out.
pub uninterp spec fn whitespace_ext(c: char) -> bool;

/// Whether a character classifies as alphanumeric: within ASCII these
/// are exactly the letters and digits; outside ASCII the classification
/// of `char::is_alphanumeric` is taken as given.
pub open spec fn alphanumeric(c: char) -> bool {
    if is_ascii_char(c) {
        (97 <= c as u32 && c as u32 <= 122) || (65 <= c as u32 && c as u32 <= 90) || (48 <= c as u32
            && c as u32 <= 57)
    } else {
        alphanumeric_ext(c)
    }
}

/// Whether a character classifies as whitespace: within ASCII these are
/// space, tab, line feed, vertical tab, form feed and carriage return;
/// outside ASCII the classification of `char::is_whitespace` is taken
/// as given.
pub open spec fn whitespace(c: char) -> bool {
    if is_ascii_char(c) {
        c as u32 == 32 || (9 <= c as u32 && c as u32 <= 13)
    } else {
        whitespace_ext(c)
    }
}

/// Relies on `char::is_alphanumeric`: a pure classification of a single
/// character; on ASCII it holds of exactly the letters and digits.
#[verifier::external_body]
pub fn char_is_alphanumeric(c: char) -> (r: bool)
    ensures
        r == alphanumeric(c),
        !is_ascii_char(c) ==> r == alphanumeric_ext(c),
{
    c.is_alphanumeric()
}

/// Relies on `char::is_whitespace`: a pure classification of a single
/// character; on ASCII it holds of exactly space, tab, line feed,
/// vertical tab, form feed and carriage return.
#[verifier::external_body]
pub fn char_is_whitespace(c: char) -> (r: bool)
    ensures
        r == whitespace(c),
        !is_ascii_char(c) ==> r == whitespace_ext(c),
{
    c.is_whitespace()
}

/// The ASCII lower-casing of a character: `A`..`Z` map to `a`..`z`,
/// everything else is unchanged.
pub open spec fn lower_char(c: char) -> char {
    if 65 <= c as u32 && c as u32 <= 90 {
        (((c as u32) + 32) as u8) as char
    } else {
        c
    }
}

/// The ASCII upper-casing of a character: `a`..`z` map to `A`..`Z`,
/// everything else is unchanged.
pub open spec fn upper_char(c: char) -> char {
    if 97 <= c as u32 && c as u32 <= 122 {
        (((c as u32) - 32) as u8) as char
    } else {
        c
    }
}

/// ASCII lower-casing neither changes a character's class nor moves it
/// out of the ASCII range, and it is idempotent.
pub proof fn lemma_lower_char_classes(c: char)
    ensures
        alphanumeric(lower_char(c)) == alphanumeric(c),
        whitespace(lower_char(c)) == whitespace(c),
        lower_char(lower_char(c)) == lower_char(c),
{
}

/// Lower-case one character, ASCII-only.
pub fn to_lower_char(c: char) -> (r: char)
    ensures
        r == lower_char(c),
{
    let u: u32 = c as u32;
    if 65 <= u && u <= 90 {
        ((u + 32) as u8) as char
    } else {
        c
    }
}

/// Upper-case one character, ASCII-only.
pub fn to_upper_char(c: char) -> (r: char)
    ensures
        r == upper_char(c),
{
    let u: u32 = c as u32;
    if 97 <= u && u <= 122 {
        ((u - 32) as u8) as char
    } else {
        c
    }
}

/// A sequence of characters, lower-cased ASCII-wise.
pub open spec fn lower_seq(s: Seq<char>) -> Seq<char> {
    s.map_values(|c: char| lower_char(c))
}

/// Lower-case a character vector, ASCII-wise.
pub fn to_lower_chars(s: &Vec<char>) -> (r: Vec<char>)
    ensures
        r@ == lower_seq(s@),
{
    let mut out: Vec<char> = Vec::new();
    let mut i: usize = 0;
    while i < s.len()
        invariant
            i <= s.len(),
            out@ == lower_seq(s@.take(i as int)),
        decreases s.len() - i,
    {
        out.push(to_lower_char(s[i]));
        proof {
            assert(lower_seq(s@.take(i + 1)) =~= lower_seq(s@.take(i as int)).push(
                lower_char(s@[i as int]),
            ));
        }
        i = i + 1;
    }
    proof {
        assert(s@.take(s@.len() as int) =~= s@);
    }
    out
}

/// Whether `sub` occurs contiguously inside `s`.
pub open spec fn contains_sub(s: Seq<char>, sub: Seq<char>) -> bool {
    exists|i: int| 0 <= i && i + sub.len() <= s.len() && #[trigger] s.subrange(i, i + sub.len())
        == sub
}

/// Whether `needle` stands at position `i` of `hay`.
fn matches_at(hay: &Vec<char>, needle: &Vec<char>, i: usize) -> (r: bool)
    requires
        i + needle@.len() <= hay@.len(),
    ensures
        r == (hay@.subrange(i as int, i + needle@.len()) == needle@),
{
    let n = hay.len();
    let mut j: usize = 0;
    while j < needle.len()
        invariant
            0 <= j <= needle@.len(),
            i + needle@.len() <= hay@.len(),
            n == hay@.len(),
            forall|t: int| 0 <= t < j ==> hay@[i + t] == needle@[t],
        decreases needle@.len() - j,
    {
        if hay[i + j] != needle[j] {
            proof {
                assert(hay@.subrange(i as int, i + needle@.len())[j as int] == hay@[i + j]);
            }
            return false;
        }
        j = j + 1;
    }
    proof {
        assert(hay@.subrange(i as int, i + needle@.len()) =~= needle@);
    }
    true
}

/// Whether one character sequence contains another contiguously.
pub fn contains_chars(hay: &Vec<char>, needle: &Vec<char>) -> (r: bool)
    ensures
        r == contains_sub(hay@, needle@),
{
    if needle.len() > hay.len() {
        return false;
    }
    let bound: usize = hay.len() - needle.len();
    let mut i: usize = 0;
    while i <= bound
        invariant
            0 <= i <= bound,
            bound == hay@.len() - needle@.len(),
            forall|k: int|
                0 <= k < i ==> #[trigger] hay@.subrange(k, k + needle@.len()) != needle@,
        decreases bound - i,
    {
        if matches_at(hay, needle, i) {
            return true;
        }
        if i == bound {
            return false;
        }
        i = i + 1;
    }
    false
}

/// The character of one decimal digit.
pub open spec fn digit_char(d: int) -> char {
    ((48 + d) as u8) as char
}

/// The decimal rendering of a number, most significant digit first.
pub open spec fn dec_chars(n: nat) -> Seq<char>
    decreases n,
{
    if n < 10 {
        seq![digit_char(n as int)]
    } else {
        dec_chars(n / 10).push(digit_char((n % 10) as int))
    }
}

/// Render a number in decimal.
pub fn usize_to_chars(n: usize) -> (r: Vec<char>)
    ensures
        r@ == dec_chars(n as nat),
{
    let mut rev: Vec<char> = Vec::new();
    let mut m: usize = n;
    proof {
        assert(rev@.reverse() =~= Seq::<char>::empty());
        assert(dec_chars(n as nat) =~= dec_chars(m as nat) + rev@.reverse());
    }
    while m >= 10
        invariant
            dec_chars(n as nat) == dec_chars(m as nat) + rev@.reverse(),
        decreases m,
    {
        let d: u8 = (m % 10) as u8 + 48;
        let ghost old_rev = rev@;
        rev.push(d as char);
        m = m / 10;
        proof {
            assert(rev@.reverse() =~= seq![rev@.last()] + old_rev.reverse());
            assert(dec_chars(n as nat) =~= dec_chars(m as nat) + rev@.reverse());
        }
    }
    let d: u8 = (m % 10) as u8 + 48;
    let mut out: Vec<char> = Vec::new();
    out.push(d as char);
    proof {
        assert(m % 10 == m as int);
        assert(out@ =~= dec_chars(m as nat));
    }
    let mut i: usize = rev.len();
    while i > 0
        invariant
            0 <= i <= rev@.len(),
            out@ == dec_chars(m as nat) + rev@.reverse().take((rev@.len() - i) as int),
        decreases i,
    {
        out.push(rev[i - 1]);
        proof {
            let k = (rev@.len() - i) as int;
            assert(rev@.reverse()[k] == rev@[i - 1]);
            assert(rev@.reverse().take(k + 1) =~= rev@.reverse().take(k).push(rev@.reverse()[k]));
        }
        i = i - 1;
    }
    proof {
        assert(rev@.reverse().take(rev@.len() as int) =~= rev@.reverse());
    }
    out
}

/// Relies on `str::chars` and `Iterator::collect`: the characters of a
/// string slice, in order.
#[verifier::external_body]
pub fn str_to_chars(s: &str) -> (r: Vec<char>)
    ensures
        r@ == s@,
{
    s.chars().collect()
}

/// Relies on `Iterator::collect` for `String`: a string made of exactly
/// the given characters, in order.
#[verifier::external_body]
pub fn chars_to_string(s: &Vec<char>) -> (r: String)
    ensures
        r@ == s@,
{
    s.iter().collect()
}

} // verus!
