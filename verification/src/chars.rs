//! Character-level helpers shared by the lexer, the entity expander and
//! the serializer.
//!
//! Text is handled as a sequence of `char`s addressed by position. The
//! functions here convert between `str` / `String` and such sequences, and
//! search them.

use vstd::prelude::*;

verus! {

/// Appends one character to a string.
///
/// Trusted: wraps [`String::push`], which appends the given `char` to the
/// end of the string and changes nothing else.
#[verifier::external_body]
pub(crate) fn push_char(s: &mut String, c: char)
    ensures
        final(s)@ == old(s)@.push(c),
{
    s.push(c)
}

/// Whether `c` is alphabetic: whether it has the Unicode property
/// `Alphabetic`.
pub uninterp spec fn char_is_alphabetic(c: char) -> bool;

/// Whether `c` is alphanumeric: alphabetic, or in one of the Unicode general
/// categories for numbers.
pub uninterp spec fn char_is_alphanumeric(c: char) -> bool;

/// What the standard library writes for `c` in an escaped literal: `\t`,
/// `\r`, `\n`, `\'`, `\"` and `\\` for those characters, the character
/// itself if it is printable ASCII, and `\u{NNNN}` in hexadecimal otherwise.
pub uninterp spec fn char_escape_default(c: char) -> Seq<char>;

/// Tests whether `c` is alphabetic.
///
/// Trusted: wraps [`char::is_alphabetic`]; the result is named, not
/// described.
#[verifier::external_body]
pub(crate) fn is_alphabetic(c: char) -> (r: bool)
    ensures
        r == char_is_alphabetic(c),
{
    c.is_alphabetic()
}

/// Tests whether `c` is alphanumeric.
///
/// Trusted: wraps [`char::is_alphanumeric`]; the result is named, not
/// described.
#[verifier::external_body]
pub(crate) fn is_alphanumeric(c: char) -> (r: bool)
    ensures
        r == char_is_alphanumeric(c),
{
    c.is_alphanumeric()
}

/// The character with the given code point, if there is one.
///
/// Trusted: wraps [`char::from_u32`], which returns `None` exactly when the
/// number is not a Unicode scalar value: when it is a surrogate or lies
/// above `0x10FFFF`.
#[verifier::external_body]
pub(crate) fn char_from_u32(code: u32) -> (r: Option<char>)
    ensures
        r == (if vstd::utf8::is_scalar(code) {
            Some(code as char)
        } else {
            None
        }),
{
    char::from_u32(code)
}

/// Appends to `s` the escaped form of `c`.
///
/// Trusted: wraps [`char::escape_default`] and appends the characters that
/// its iterator yields; the result is named, not described.
#[verifier::external_body]
pub(crate) fn push_escape_default(s: &mut String, c: char)
    ensures
        final(s)@ == old(s)@ + char_escape_default(c),
{
    s.extend(c.escape_default())
}

/// What the standard library writes for the string `s` when it formats it
/// for debugging: the string in double quotes, with the characters that
/// need it escaped.
pub uninterp spec fn str_debug(s: Seq<char>) -> Seq<char>;

/// Appends to `out` the string `s` as formatted for debugging.
///
/// Trusted: wraps the formatting of a `str` with `{:?}`, that is
/// `<str as Debug>::fmt`; the result is named, not described.
#[verifier::external_body]
pub(crate) fn push_debug_str(out: &mut String, s: &str)
    ensures
        final(out)@ == old(out)@ + str_debug(s@),
{
    out.push_str(&format!("{:?}", s))
}

/// The characters of a string, in order.
pub fn to_chars(s: &str) -> (v: Vec<char>)
    ensures
        v@ == s@,
{
    broadcast use vstd::string::group_string_axioms;

    let mut v: Vec<char> = Vec::new();
    for c in it: s.chars()
        invariant
            it.seq() == s@,
            v@ == s@.take(it.index()),
    {
        v.push(c);
    }
    assert(s@.take(s@.len() as int) == s@);
    v
}

/// Appends the characters `v[from..to]` to `s`.
pub fn push_chars(s: &mut String, v: &[char], from: usize, to: usize)
    requires
        from <= to <= v@.len(),
    ensures
        final(s)@ == old(s)@ + v@.subrange(from as int, to as int),
{
    let mut i: usize = from;
    while i < to
        invariant
            from <= i <= to <= v@.len(),
            s@ == old(s)@ + v@.subrange(from as int, i as int),
        decreases to - i,
    {
        push_char(s, v[i]);
        assert(v@.subrange(from as int, i + 1) == v@.subrange(from as int, i as int).push(
            v@[i as int],
        ));
        i += 1;
    }
}

/// The string made of the characters `v[from..to]`.
pub fn substring(v: &[char], from: usize, to: usize) -> (s: String)
    requires
        from <= to <= v@.len(),
    ensures
        s@ == v@.subrange(from as int, to as int),
{
    let mut s = String::new();
    push_chars(&mut s, v, from, to);
    s
}

/// The string made of all the characters of `v`.
pub fn string_of(v: &[char]) -> (s: String)
    ensures
        s@ == v@,
{
    let s = substring(v, 0, v.len());
    assert(v@.subrange(0, v@.len() as int) == v@);
    s
}

/// Whether `pat` occurs in `s` starting exactly at `pos`.
pub open spec fn matches_at(s: Seq<char>, pos: int, pat: Seq<char>) -> bool {
    &&& 0 <= pos
    &&& pos + pat.len() <= s.len()
    &&& s.subrange(pos, pos + pat.len()) == pat
}

/// Tests whether `pat` occurs in `v` starting exactly at `pos`.
pub fn starts_with_at(v: &[char], pos: usize, pat: &[char]) -> (r: bool)
    ensures
        r == matches_at(v@, pos as int, pat@),
        r ==> pos + pat@.len() <= v@.len() <= usize::MAX,
{
    if pos > v.len() || pat.len() > v.len() - pos {
        return false;
    }
    let mut k: usize = 0;
    while k < pat.len()
        invariant
            pos + pat@.len() <= v@.len() <= usize::MAX,
            k <= pat@.len(),
            v@.subrange(pos as int, pos + k) == pat@.take(k as int),
        decreases pat@.len() - k,
    {
        if v[pos + k] != pat[k] {
            assert(v@.subrange(pos as int, pos + pat@.len())[k as int] != pat@[k as int]);
            return false;
        }
        assert(v@.subrange(pos as int, pos + k + 1) == v@.subrange(pos as int, pos + k).push(
            v@[pos + k],
        ));
        assert(pat@.take(k + 1) == pat@.take(k as int).push(pat@[k as int]));
        k += 1;
    }
    assert(pat@.take(pat@.len() as int) == pat@);
    true
}

/// The first position at or after `pos` where `pat` occurs in `s`.
pub open spec fn first_match(s: Seq<char>, pos: int, pat: Seq<char>) -> Option<int>
    decreases s.len() - pos,
{
    if pos < 0 || pos + pat.len() > s.len() {
        None
    } else if matches_at(s, pos, pat) {
        Some(pos)
    } else if pos >= s.len() {
        None
    } else {
        first_match(s, pos + 1, pat)
    }
}

/// `first_match` finds an occurrence, and no occurrence starts before it.
pub proof fn lemma_first_match(s: Seq<char>, pos: int, pat: Seq<char>)
    requires
        0 <= pos,
    ensures
        match first_match(s, pos, pat) {
            Some(i) => pos <= i && matches_at(s, i, pat) && forall|j: int|
                pos <= j < i ==> !matches_at(s, j, pat),
            None => forall|j: int| pos <= j ==> !matches_at(s, j, pat),
        },
    decreases s.len() - pos,
{
    if pos + pat.len() > s.len() {
    } else if matches_at(s, pos, pat) {
    } else if pos >= s.len() {
    } else {
        lemma_first_match(s, pos + 1, pat);
    }
}

/// Finds the first position at or after `pos` where `pat` occurs in `v`.
#[verifier::loop_isolation(false)]
pub fn find_from(v: &[char], pos: usize, pat: &[char]) -> (r: Option<usize>)
    ensures
        match r {
            Some(i) => first_match(v@, pos as int, pat@) == Some(i as int) && pos <= i && i
                + pat@.len() <= v@.len() <= usize::MAX && matches_at(v@, i as int, pat@)
                && forall|j: int| pos <= j < i ==> !matches_at(v@, j, pat@),
            None => first_match(v@, pos as int, pat@) is None && forall|j: int|
                pos <= j ==> !matches_at(v@, j, pat@),
        },
{
    proof {
        lemma_first_match(v@, pos as int, pat@);
    }
    if pos > v.len() || pat.len() > v.len() - pos {
        return None;
    }
    let last: usize = v.len() - pat.len();
    let mut i: usize = pos;
    loop
        invariant
            pos <= i <= last,
            last == v@.len() - pat@.len(),
            first_match(v@, pos as int, pat@) == first_match(v@, i as int, pat@),
        decreases last - i,
    {
        if starts_with_at(v, i, pat) {
            return Some(i);
        }
        if i == last {
            assert(first_match(v@, last + 1, pat@) is None);
            return None;
        }
        i += 1;
    }
}

/// The first position at or after `pos` that holds the character `c`.
pub open spec fn first_char(s: Seq<char>, pos: int, c: char) -> Option<int>
    decreases s.len() - pos,
{
    if pos < 0 || pos >= s.len() {
        None
    } else if s[pos] == c {
        Some(pos)
    } else {
        first_char(s, pos + 1, c)
    }
}

/// Finds the first position at or after `pos` that holds the character `c`.
pub fn find_char_from(v: &[char], pos: usize, c: char) -> (r: Option<usize>)
    ensures
        match r {
            Some(i) => first_char(v@, pos as int, c) == Some(i as int) && pos <= i < v@.len(),
            None => first_char(v@, pos as int, c) is None,
        },
{
    let mut i: usize = pos;
    while i < v.len()
        invariant
            pos <= i,
            first_char(v@, pos as int, c) == first_char(v@, i as int, c),
        decreases v@.len() - i,
    {
        if v[i] == c {
            return Some(i);
        }
        i += 1;
    }
    None
}

/// Whether two strings hold the same characters.
pub fn str_eq(a: &str, b: &str) -> (r: bool)
    ensures
        r == (a@ == b@),
{
    let x = to_chars(a);
    let y = to_chars(b);
    if x.len() != y.len() {
        return false;
    }
    let r = starts_with_at(x.as_slice(), 0, y.as_slice());
    assert(x@.subrange(0, x@.len() as int) == x@);
    r
}

/// Tests whether the character `c` occurs in `s`.
pub fn contains_char(s: &str, c: char) -> (r: bool)
    ensures
        r == s@.contains(c),
{
    broadcast use vstd::string::group_string_axioms;

    let mut found = false;
    for x in it: s.chars()
        invariant
            it.seq() == s@,
            found == s@.take(it.index()).contains(c),
    {
        proof {
            let k = it.index();
            let a = s@.take(k);
            let b = s@.take(k + 1);
            assert(b == a.push(x));
            if a.contains(c) {
                let i = choose|i: int| 0 <= i < a.len() && a[i] == c;
                assert(b[i] == c);
            } else if x == c {
                assert(b[k] == c);
            } else if b.contains(c) {
                let i = choose|i: int| 0 <= i < b.len() && b[i] == c;
                assert(a[i] == c);
            }
        }
        found = found || x == c;
    }
    assert(s@.take(s@.len() as int) == s@);
    found
}

} // verus!
