//! Functions for dealing with textual character data.

use vstd::prelude::*;
use vstd::utf8::encode_scalar;
use vstd::utf8::encode_utf8;

use crate::chars::push_char;
use crate::chars::to_chars;

verus! {

/// The most common definition of whitespace in SGML: space, tab, carriage
/// return and line feed. U+000C FORM FEED and the other Unicode whitespace
/// characters are not part of it.
pub open spec fn spec_is_sgml_whitespace(c: char) -> bool {
    c == ' ' || c == '\t' || c == '\r' || c == '\n'
}

/// Tests whether a character is SGML whitespace (`" \t\r\n"`).
#[verifier::when_used_as_spec(spec_is_sgml_whitespace)]
pub fn is_sgml_whitespace(c: char) -> (r: bool)
    ensures
        r == spec_is_sgml_whitespace(c),
{
    c == ' ' || c == '\t' || c == '\r' || c == '\n'
}

/// A text is blank when it holds nothing but SGML whitespace.
pub open spec fn spec_is_blank(s: Seq<char>) -> bool {
    forall|i: int| 0 <= i < s.len() ==> spec_is_sgml_whitespace(#[trigger] s[i])
}

/// Tests whether a string holds nothing but SGML whitespace.
pub fn is_blank(s: &str) -> (r: bool)
    ensures
        r == spec_is_blank(s@),
{
    broadcast use vstd::string::group_string_axioms;

    let mut blank = true;
    for c in it: s.chars()
        invariant
            it.seq() == s@,
            blank == spec_is_blank(s@.take(it.index())),
    {
        let ghost k = it.index();
        proof {
            let a = s@.take(k);
            let b = s@.take(k + 1);
            assert(b == a.push(s@[k]));
            if spec_is_blank(a) && spec_is_sgml_whitespace(c) {
                assert forall|i: int| 0 <= i < b.len() implies spec_is_sgml_whitespace(
                    #[trigger] b[i],
                ) by {
                    if i < k {
                        assert(b[i] == a[i]);
                    }
                }
            } else if !spec_is_blank(a) {
                let i = choose|i: int| 0 <= i < a.len() && !spec_is_sgml_whitespace(a[i]);
                assert(b[i] == a[i]);
            } else {
                assert(b[k] == c);
            }
        }
        blank = blank && is_sgml_whitespace(c);
    }
    assert(s@.take(s@.len() as int) == s@);
    blank
}

/// The first position in `[from, to]` that is `to` or holds a character
/// that is not SGML whitespace.
pub open spec fn trim_start(s: Seq<char>, from: int, to: int) -> int
    decreases to - from,
{
    if from < to && 0 <= from < s.len() && spec_is_sgml_whitespace(s[from]) {
        trim_start(s, from + 1, to)
    } else {
        from
    }
}

/// The last position in `[from, to]` that is `from` or follows a character
/// that is not SGML whitespace.
pub open spec fn trim_end(s: Seq<char>, from: int, to: int) -> int
    decreases to - from,
{
    if from < to && 0 < to <= s.len() && spec_is_sgml_whitespace(s[to - 1]) {
        trim_end(s, from, to - 1)
    } else {
        to
    }
}

/// The bounds of `s[from..to]` without its leading and trailing SGML
/// whitespace.
pub open spec fn trim_bounds(s: Seq<char>, from: int, to: int) -> (int, int) {
    let start = trim_start(s, from, to);
    (start, trim_end(s, start, to))
}

/// `s` without its leading and trailing SGML whitespace.
pub open spec fn trimmed(s: Seq<char>) -> Seq<char> {
    let (a, b) = trim_bounds(s, 0, s.len() as int);
    s.subrange(a, b)
}

/// Computes the bounds of `v[from..to]` without its leading and trailing
/// SGML whitespace.
pub fn trim_range(v: &[char], from: usize, to: usize) -> (r: (usize, usize))
    requires
        from <= to <= v@.len(),
    ensures
        (r.0 as int, r.1 as int) == trim_bounds(v@, from as int, to as int),
        from <= r.0 <= r.1 <= to,
{
    let mut a: usize = from;
    while a < to && is_sgml_whitespace(v[a])
        invariant
            from <= a <= to <= v@.len(),
            trim_start(v@, from as int, to as int) == trim_start(v@, a as int, to as int),
        decreases to - a,
    {
        a += 1;
    }
    let mut b: usize = to;
    while a < b && is_sgml_whitespace(v[b - 1])
        invariant
            a <= b <= to <= v@.len(),
            trim_end(v@, a as int, to as int) == trim_end(v@, a as int, b as int),
        decreases b - a,
    {
        b -= 1;
    }
    (a, b)
}

/// The character reference that stands for `c` in escaped text, or `c`
/// itself where it needs none.
pub open spec fn escaped_char(c: char, escape_ampersand: bool) -> Seq<char> {
    if c == '<' {
        seq!['&', '#', '6', '0', ';']
    } else if c == '>' {
        seq!['&', '#', '6', '2', ';']
    } else if c == '&' && escape_ampersand {
        seq!['&', '#', '3', '8', ';']
    } else {
        seq![c]
    }
}

/// The text `s` with `<`, `>` and, if asked for, `&` written as numeric
/// character references.
pub open spec fn escaped(s: Seq<char>, escape_ampersand: bool) -> Seq<char>
    decreases s.len(),
{
    if s.len() == 0 {
        Seq::empty()
    } else {
        escaped_char(s[0], escape_ampersand) + escaped(s.drop_first(), escape_ampersand)
    }
}

/// The digits and the semicolon that follow `&#` in the reference to the
/// character with the given two-digit code.
pub open spec fn reference_tail(code: u8) -> Seq<char> {
    seq!['#', spec_digit_char(code / 10), spec_digit_char(code % 10), ';']
}

/// The character that writes the decimal digit `d`.
pub open spec fn spec_digit_char(d: u8) -> char {
    (48 + d) as char
}

/// The character that writes the decimal digit `d`.
#[verifier::when_used_as_spec(spec_digit_char)]
pub fn digit_char(d: u8) -> (c: char)
    requires
        d < 10,
    ensures
        c == spec_digit_char(d),
{
    (48u8 + d) as char
}

/// The number of bytes that `c` takes in UTF-8.
pub fn len_utf8(c: char) -> (n: usize)
    ensures
        n == encode_scalar(c as u32).len(),
        1 <= n <= 4,
{
    let code: u32 = c as u32;
    if code < 0x80 {
        1
    } else if code < 0x800 {
        2
    } else if code < 0x10000 {
        3
    } else {
        4
    }
}

/// Returns an iterator-like value that escapes the characters that cannot
/// stand in SGML text (`<`, `>`, `&`) as character references (`&#60;`).
///
/// This is not safe for attribute values.
pub fn escape(text: &str) -> (e: Escape)
    ensures
        e.wf(),
        e.remaining() == escaped(text@, true),
        e.source() == text@,
        e.escapes_ampersand(),
{
    let chars = to_chars(text);
    assert(chars@.skip(0) == chars@);
    Escape {
        escape_ampersand: true,
        chars,
        next: 0,
        remaining_bytes: text.as_bytes().len(),
        escape_code: 0,
        escape_next: 4,
    }
}

/// The return type of [`escape`]: yields the escaped text one character at
/// a time.
#[derive(Clone, Debug)]
pub struct Escape {
    escape_ampersand: bool,
    chars: Vec<char>,
    next: usize,
    remaining_bytes: usize,
    escape_code: u8,
    escape_next: usize,
}

impl Escape {
    /// The source characters that were not looked at yet.
    pub closed spec fn source(&self) -> Seq<char> {
        self.chars@.skip(self.next as int)
    }

    /// Whether ampersands will be escaped.
    pub closed spec fn escapes_ampersand(&self) -> bool {
        self.escape_ampersand
    }

    /// What is left to yield of the character reference that was begun.
    pub closed spec fn pending(&self) -> Seq<char> {
        reference_tail(self.escape_code).skip(self.escape_next as int)
    }

    /// Everything that is still to be yielded.
    pub open spec fn remaining(&self) -> Seq<char> {
        self.pending() + escaped(self.source(), self.escapes_ampersand())
    }

    /// The internal invariant.
    pub closed spec fn wf(&self) -> bool {
        &&& self.next <= self.chars@.len()
        &&& self.remaining_bytes == encode_utf8(self.source()).len()
        &&& self.escape_next <= 4
        &&& self.escape_code < 100
    }

    /// Changes whether ampersands (`&`) should be escaped from here on.
    pub fn set_escape_ampersand(&mut self, escape_ampersand: bool)
        requires
            old(self).wf(),
        ensures
            final(self).wf(),
            final(self).escapes_ampersand() == escape_ampersand,
            final(self).source() == old(self).source(),
            final(self).pending() == old(self).pending(),
    {
        self.escape_ampersand = escape_ampersand;
    }

    /// Yields the next character of the escaped text, if there is one.
    pub fn next(&mut self) -> (r: Option<char>)
        requires
            old(self).wf(),
        ensures
            final(self).wf(),
            final(self).escapes_ampersand() == old(self).escapes_ampersand(),
            old(self).remaining().len() == 0 ==> r is None && final(self).remaining().len() == 0,
            old(self).remaining().len() > 0 ==> r == Some(old(self).remaining()[0])
                && final(self).remaining() == old(self).remaining().drop_first(),
    {
        if self.escape_next < 4 {
            let code: u8 = self.escape_code;
            let c = if self.escape_next == 0 {
                '#'
            } else if self.escape_next == 1 {
                digit_char(code / 10)
            } else if self.escape_next == 2 {
                digit_char(code % 10)
            } else {
                ';'
            };
            proof {
                let tail = reference_tail(code);
                let k = self.escape_next as int;
                assert(tail.skip(k)[0] == c);
                assert(tail.skip(k).drop_first() == tail.skip(k + 1));
                let rest = escaped(old(self).source(), old(self).escapes_ampersand());
                assert((tail.skip(k) + rest).drop_first() == tail.skip(k + 1) + rest);
            }
            self.escape_next += 1;
            return Some(c);
        }
        let ghost src = self.source();
        let ghost amp = self.escape_ampersand;
        assert(self.pending() == Seq::<char>::empty());
        assert(self.remaining() == escaped(src, amp));
        if self.next >= self.chars.len() {
            assert(src.len() == 0);
            return None;
        }
        let c = self.chars[self.next];
        let width = len_utf8(c);
        proof {
            assert(src[0] == c);
            assert(src.drop_first() == self.chars@.skip(self.next + 1));
            assert(encode_utf8(src) == encode_scalar(c as u32) + encode_utf8(src.drop_first()));
        }
        self.next += 1;
        self.remaining_bytes -= width;
        let code: u8 = if c == '<' {
            60
        } else if c == '>' {
            62
        } else if c == '&' && self.escape_ampersand {
            38
        } else {
            0
        };
        if code != 0 {
            self.escape_code = code;
            self.escape_next = 0;
            proof {
                let tail = reference_tail(code);
                assert(tail.skip(0) == tail);
                assert(escaped_char(c, amp) == seq!['&'] + tail);
                let rest = escaped(src.drop_first(), amp);
                assert(escaped(src, amp) == (seq!['&'] + tail) + rest);
                assert(((seq!['&'] + tail) + rest).drop_first() == tail + rest);
            }
            Some('&')
        } else {
            proof {
                let rest = escaped(src.drop_first(), amp);
                assert(escaped(src, amp) == seq![c] + rest);
                assert((seq![c] + rest).drop_first() == rest);
                assert(self.pending() + rest == rest);
            }
            Some(c)
        }
    }

    /// The bounds on the number of characters that are still to be yielded:
    /// each source character takes at most four bytes and yields at most
    /// five characters.
    pub fn size_hint(&self) -> (r: (usize, Option<usize>))
        requires
            self.wf(),
        ensures
            r.0 == (encode_utf8(self.source()).len() + 3) / 4 + self.pending().len(),
            r.1 == (if encode_utf8(self.source()).len() * 5 + self.pending().len() <= usize::MAX {
                Some((encode_utf8(self.source()).len() * 5 + self.pending().len()) as usize)
            } else {
                None
            }),
    {
        let escape_len: usize = 4 - self.escape_next;
        let min: usize = self.remaining_bytes / 4 + (if self.remaining_bytes % 4 == 0 {
            0
        } else {
            1
        });
        let lower: usize = min + escape_len;
        let upper = match self.remaining_bytes.checked_mul(5) {
            Some(n) => n.checked_add(escape_len),
            None => None,
        };
        (lower, upper)
    }

    /// The escaped text that is still to be yielded, as a string.
    pub fn to_string(&self) -> (s: String)
        requires
            self.wf(),
        ensures
            s@ == self.remaining(),
    {
        let mut s = String::new();
        let mut k: usize = self.escape_next;
        let code: u8 = self.escape_code;
        while k < 4
            invariant
                self.escape_next <= k <= 4,
                code == self.escape_code,
                code < 100,
                s@ + reference_tail(code).skip(k as int) == self.pending(),
            decreases 4 - k,
        {
            let c = if k == 0 {
                '#'
            } else if k == 1 {
                digit_char(code / 10)
            } else if k == 2 {
                digit_char(code % 10)
            } else {
                ';'
            };
            push_char(&mut s, c);
            proof {
                let tail = reference_tail(code);
                assert(tail.skip(k as int) == seq![c] + tail.skip(k + 1));
                assert(s@ + tail.skip(k + 1) == self.pending());
            }
            k += 1;
        }
        assert(reference_tail(code).skip(4) == Seq::<char>::empty());
        assert(s@ == self.pending());
        push_escaped(&mut s, self.chars.as_slice(), self.next, self.chars.len(), self.escape_ampersand);
        assert(self.chars@.subrange(self.next as int, self.chars@.len() as int) == self.source());
        s
    }
}

/// Appends to `s` the escaped form of the characters `v[from..to]`.
pub fn push_escaped(s: &mut String, v: &[char], from: usize, to: usize, escape_ampersand: bool)
    requires
        from <= to <= v@.len(),
    ensures
        final(s)@ == old(s)@ + escaped(v@.subrange(from as int, to as int), escape_ampersand),
{
    let mut i: usize = from;
    assert(v@.subrange(from as int, from as int) == Seq::<char>::empty());
    while i < to
        invariant
            from <= i <= to <= v@.len(),
            s@ == old(s)@ + escaped(v@.subrange(from as int, i as int), escape_ampersand),
        decreases to - i,
    {
        let c = v[i];
        proof {
            lemma_escaped_push(v@.subrange(from as int, i as int), c, escape_ampersand);
            assert(v@.subrange(from as int, i + 1) == v@.subrange(from as int, i as int).push(c));
        }
        if c == '<' {
            push_reference(s, 60);
        } else if c == '>' {
            push_reference(s, 62);
        } else if c == '&' && escape_ampersand {
            push_reference(s, 38);
        } else {
            push_char(s, c);
            assert(seq![c] == Seq::<char>::empty().push(c));
        }
        i += 1;
    }
}

/// Appends to `s` the reference `&#NN;` to the character with the given
/// two-digit code.
pub fn push_reference(s: &mut String, code: u8)
    requires
        code < 100,
    ensures
        final(s)@ == old(s)@ + (seq!['&'] + reference_tail(code)),
{
    push_char(s, '&');
    push_char(s, '#');
    push_char(s, digit_char(code / 10));
    push_char(s, digit_char(code % 10));
    push_char(s, ';');
    assert(s@ == old(s)@ + (seq!['&'] + reference_tail(code)));
}

/// Escaping goes character by character: it distributes over a character
/// appended at the end.
pub proof fn lemma_escaped_push(s: Seq<char>, c: char, escape_ampersand: bool)
    ensures
        escaped(s.push(c), escape_ampersand) == escaped(s, escape_ampersand) + escaped_char(
            c,
            escape_ampersand,
        ),
    decreases s.len(),
{
    if s.len() == 0 {
        assert(s.push(c).drop_first() == Seq::<char>::empty());
        assert(escaped(s.push(c).drop_first(), escape_ampersand) == Seq::<char>::empty());
        assert(escaped(s.push(c), escape_ampersand) == escaped_char(c, escape_ampersand)
            + Seq::<char>::empty());
    } else {
        lemma_escaped_push(s.drop_first(), c, escape_ampersand);
        assert(s.push(c).drop_first() == s.drop_first().push(c));
        assert(s.push(c)[0] == s[0]);
    }
}

} // verus!
