//! Items related to parsing marked sections.

use vstd::prelude::*;

use crate::chars::substring;
use crate::chars::to_chars;

verus! {

/// The different levels a marked section may have, depending on its keywords.
///
/// They are ordered by precedence, from the lowest to the highest.
#[derive(Clone, Copy, Debug, Eq, Ord, PartialEq, PartialOrd)]
pub enum MarkedSectionStatus {
    Include,
    RcData,
    CData,
    Ignore,
}

/// When a marked section status keyword is not one of `CDATA`, `RCDATA`, `IGNORE`, `INCLUDE`, or `TEMP`.
#[derive(Clone, Debug, Eq, PartialEq)]
pub struct ParseMarkedSectionStatusError;

/// The letter `c` in lower case, if it is an ASCII letter in upper case;
/// else `c`.
pub open spec fn spec_ascii_lowercase(c: char) -> char {
    if 'A' <= c && c <= 'Z' {
        ((c as u8) + 32) as char
    } else {
        c
    }
}

/// The letter `c` in upper case, if it is an ASCII letter in lower case;
/// else `c`.
pub open spec fn spec_ascii_uppercase(c: char) -> char {
    if 'a' <= c && c <= 'z' {
        ((c as u8) - 32) as char
    } else {
        c
    }
}

/// Converts an ASCII letter in upper case to lower case.
#[verifier::when_used_as_spec(spec_ascii_lowercase)]
pub fn ascii_lowercase(c: char) -> (r: char)
    ensures
        r == spec_ascii_lowercase(c),
{
    if c >= 'A' && c <= 'Z' {
        ((c as u8) + 32) as char
    } else {
        c
    }
}

/// Converts an ASCII letter in lower case to upper case.
#[verifier::when_used_as_spec(spec_ascii_uppercase)]
pub fn ascii_uppercase(c: char) -> (r: char)
    ensures
        r == spec_ascii_uppercase(c),
{
    if c >= 'a' && c <= 'z' {
        ((c as u8) - 32) as char
    } else {
        c
    }
}

/// Whether two texts are the same but for the case of ASCII letters.
pub open spec fn spec_eq_ignore_ascii_case(a: Seq<char>, b: Seq<char>) -> bool {
    &&& a.len() == b.len()
    &&& forall|i: int|
        0 <= i < a.len() ==> spec_ascii_lowercase(#[trigger] a[i]) == spec_ascii_lowercase(b[i])
}

/// Tests whether two texts are the same but for the case of ASCII letters.
pub fn eq_ignore_ascii_case(a: &[char], b: &[char]) -> (r: bool)
    ensures
        r == spec_eq_ignore_ascii_case(a@, b@),
{
    if a.len() != b.len() {
        return false;
    }
    let mut i: usize = 0;
    while i < a.len()
        invariant
            a@.len() == b@.len(),
            i <= a@.len(),
            forall|j: int|
                0 <= j < i ==> spec_ascii_lowercase(#[trigger] a@[j]) == spec_ascii_lowercase(
                    b@[j],
                ),
        decreases a@.len() - i,
    {
        if ascii_lowercase(a[i]) != ascii_lowercase(b[i]) {
            return false;
        }
        i += 1;
    }
    true
}

/// Whether `c` is ASCII whitespace: space, tab, line feed, form feed or
/// carriage return.
pub open spec fn spec_is_ascii_whitespace(c: char) -> bool {
    c == ' ' || c == '\t' || c == '\n' || c == '\x0C' || c == '\r'
}

/// Tests whether `c` is ASCII whitespace.
#[verifier::when_used_as_spec(spec_is_ascii_whitespace)]
pub fn is_ascii_whitespace(c: char) -> (r: bool)
    ensures
        r == spec_is_ascii_whitespace(c),
{
    c == ' ' || c == '\t' || c == '\n' || c == '\x0C' || c == '\r'
}

/// The end of the run of ASCII whitespace (`blank`) or of other
/// characters (`!blank`) that starts at `pos`.
pub open spec fn word_boundary(s: Seq<char>, pos: int, blank: bool) -> int
    decreases s.len() - pos,
{
    if 0 <= pos < s.len() && spec_is_ascii_whitespace(s[pos]) == blank {
        word_boundary(s, pos + 1, blank)
    } else {
        pos
    }
}

/// Finds the end of the run of ASCII whitespace (`blank`) or of other
/// characters (`!blank`) that starts at `pos`.
pub fn scan_word_boundary(v: &[char], pos: usize, blank: bool) -> (end: usize)
    requires
        pos <= v@.len(),
    ensures
        end == word_boundary(v@, pos as int, blank),
        pos <= end <= v@.len(),
        end < v@.len() ==> spec_is_ascii_whitespace(v@[end as int]) != blank,
        !blank && pos < v@.len() && !spec_is_ascii_whitespace(v@[pos as int]) ==> pos < end,
{
    let mut i: usize = pos;
    while i < v.len() && is_ascii_whitespace(v[i]) == blank
        invariant
            pos <= i <= v@.len(),
            word_boundary(v@, pos as int, blank) == word_boundary(v@, i as int, blank),
            !blank && pos < v@.len() && !spec_is_ascii_whitespace(v@[pos as int]) && i == pos ==> i
                < v@.len(),
        decreases v@.len() - i,
    {
        i += 1;
    }
    i
}

impl MarkedSectionStatus {
    /// The place of the status in the order of precedence.
    pub open spec fn spec_rank(self) -> int {
        match self {
            MarkedSectionStatus::Include => 0,
            MarkedSectionStatus::RcData => 1,
            MarkedSectionStatus::CData => 2,
            MarkedSectionStatus::Ignore => 3,
        }
    }

    /// The place of the status in the order of precedence.
    pub fn rank(self) -> (r: u8)
        ensures
            r == self.spec_rank(),
    {
        match self {
            MarkedSectionStatus::Include => 0,
            MarkedSectionStatus::RcData => 1,
            MarkedSectionStatus::CData => 2,
            MarkedSectionStatus::Ignore => 3,
        }
    }

    /// The status among the two that takes precedence.
    pub open spec fn spec_max(self, other: MarkedSectionStatus) -> MarkedSectionStatus {
        if other.spec_rank() > self.spec_rank() {
            other
        } else {
            self
        }
    }

    /// The status among the two that takes precedence.
    pub fn highest(self, other: MarkedSectionStatus) -> (r: MarkedSectionStatus)
        ensures
            r == self.spec_max(other),
    {
        if other.rank() > self.rank() {
            other
        } else {
            self
        }
    }

    /// The status that a keyword stands for, whatever the case of its
    /// letters: `CDATA`, `RCDATA`, `IGNORE`, `INCLUDE`, or `TEMP`, which
    /// stands for the same as `INCLUDE`.
    pub open spec fn of_keyword(keyword: Seq<char>) -> Option<MarkedSectionStatus> {
        if spec_eq_ignore_ascii_case(keyword, seq!['C', 'D', 'A', 'T', 'A']) {
            Some(MarkedSectionStatus::CData)
        } else if spec_eq_ignore_ascii_case(keyword, seq!['R', 'C', 'D', 'A', 'T', 'A']) {
            Some(MarkedSectionStatus::RcData)
        } else if spec_eq_ignore_ascii_case(keyword, seq!['I', 'G', 'N', 'O', 'R', 'E']) {
            Some(MarkedSectionStatus::Ignore)
        } else if spec_eq_ignore_ascii_case(keyword, seq!['I', 'N', 'C', 'L', 'U', 'D', 'E']) {
            Some(MarkedSectionStatus::Include)
        } else if spec_eq_ignore_ascii_case(keyword, seq!['T', 'E', 'M', 'P']) {
            Some(MarkedSectionStatus::Include)
        } else {
            None
        }
    }

    /// The status that the keywords of `s` from `pos` on give, starting
    /// from the status `so_far`: the highest of them; or the stretch of the
    /// first word that is no keyword. Keywords are separated by ASCII
    /// whitespace.
    pub open spec fn of_keywords_from(
        s: Seq<char>,
        pos: int,
        so_far: MarkedSectionStatus,
    ) -> Result<MarkedSectionStatus, (int, int)>
        decreases s.len() - pos,
    {
        let start = word_boundary(s, pos, true);
        let end = word_boundary(s, start, false);
        if !(0 <= pos <= start < end <= s.len()) {
            Ok(so_far)
        } else {
            match Self::of_keyword(s.subrange(start, end)) {
                Some(status) => Self::of_keywords_from(s, end, so_far.spec_max(status)),
                None => Err((start, end)),
            }
        }
    }

    /// The status that a list of keywords gives: the highest among them,
    /// and `Include` where there is none; or the stretch of the first word
    /// that is no keyword.
    pub open spec fn of_keywords(s: Seq<char>) -> Result<MarkedSectionStatus, (int, int)> {
        Self::of_keywords_from(s, 0, MarkedSectionStatus::Include)
    }

    /// Returns the operation for the given status keyword.
    ///
    /// Returns `None` if the given text is not a valid keyword.
    pub fn from_keyword_chars(keyword: &[char]) -> (r: Option<MarkedSectionStatus>)
        ensures
            r == Self::of_keyword(keyword@),
    {
        let cdata: [char; 5] = ['C', 'D', 'A', 'T', 'A'];
        let rcdata: [char; 6] = ['R', 'C', 'D', 'A', 'T', 'A'];
        let ignore: [char; 6] = ['I', 'G', 'N', 'O', 'R', 'E'];
        let included: [char; 7] = ['I', 'N', 'C', 'L', 'U', 'D', 'E'];
        let temp: [char; 4] = ['T', 'E', 'M', 'P'];
        assert(cdata@ == seq!['C', 'D', 'A', 'T', 'A']);
        assert(rcdata@ == seq!['R', 'C', 'D', 'A', 'T', 'A']);
        assert(ignore@ == seq!['I', 'G', 'N', 'O', 'R', 'E']);
        assert(included@ == seq!['I', 'N', 'C', 'L', 'U', 'D', 'E']);
        assert(temp@ == seq!['T', 'E', 'M', 'P']);
        if eq_ignore_ascii_case(keyword, cdata.as_slice()) {
            Some(MarkedSectionStatus::CData)
        } else if eq_ignore_ascii_case(keyword, rcdata.as_slice()) {
            Some(MarkedSectionStatus::RcData)
        } else if eq_ignore_ascii_case(keyword, ignore.as_slice()) {
            Some(MarkedSectionStatus::Ignore)
        } else if eq_ignore_ascii_case(keyword, included.as_slice()) {
            Some(MarkedSectionStatus::Include)
        } else if eq_ignore_ascii_case(keyword, temp.as_slice()) {
            Some(MarkedSectionStatus::Include)
        } else {
            None
        }
    }

    /// Returns the operation for the given status keyword.
    ///
    /// Returns `None` if the given string is not a valid keyword.
    pub fn from_keyword(status_keyword: &str) -> (r: Option<MarkedSectionStatus>)
        ensures
            r == Self::of_keyword(status_keyword@),
    {
        let chars = to_chars(status_keyword);
        Self::from_keyword_chars(chars.as_slice())
    }

    /// Returns the highest-priority operation from all the given keywords,
    /// or the stretch of the first word that is no keyword.
    pub fn from_keywords_chars(status_keywords: &[char]) -> (r: Result<
        MarkedSectionStatus,
        (usize, usize),
    >)
        ensures
            match r {
                Ok(status) => Self::of_keywords(status_keywords@) == Ok::<_, (int, int)>(status),
                Err(span) => Self::of_keywords(status_keywords@) == Err::<MarkedSectionStatus, _>(
                    (span.0 as int, span.1 as int),
                ) && span.0 < span.1 <= status_keywords@.len(),
            },
    {
        let mut status = MarkedSectionStatus::Include;
        let mut pos: usize = 0;
        loop
            invariant
                pos <= status_keywords@.len(),
                Self::of_keywords(status_keywords@) == Self::of_keywords_from(
                    status_keywords@,
                    pos as int,
                    status,
                ),
            decreases status_keywords@.len() - pos,
        {
            let start = scan_word_boundary(status_keywords, pos, true);
            let end = scan_word_boundary(status_keywords, start, false);
            if start >= end {
                return Ok(status);
            }
            let keyword = vstd::slice::slice_subrange(status_keywords, start, end);
            match Self::from_keyword_chars(keyword) {
                Some(found) => {
                    status = status.highest(found);
                    pos = end;
                },
                None => {
                    return Err((start, end));
                },
            }
        }
    }

    /// Returns the highest-priority operation from all the given keywords.
    ///
    /// When no keywords are present, the default status is [`Include`](MarkedSectionStatus::Include).
    /// If the keyword list contains an invalid keyword, returns it as an error.
    pub fn from_keywords(status_keywords: &str) -> (r: Result<MarkedSectionStatus, String>)
        ensures
            match r {
                Ok(status) => Self::of_keywords(status_keywords@) == Ok::<_, (int, int)>(status),
                Err(keyword) => Self::of_keywords(status_keywords@) matches Err(span)
                    && keyword@ == status_keywords@.subrange(span.0, span.1),
            },
    {
        let chars = to_chars(status_keywords);
        match Self::from_keywords_chars(chars.as_slice()) {
            Ok(status) => Ok(status),
            Err(span) => Err(substring(chars.as_slice(), span.0, span.1)),
        }
    }
}

impl Default for MarkedSectionStatus {
    /// Returns the default status for marked sections: [`Include`](MarkedSectionStatus::Include).
    fn default() -> (r: MarkedSectionStatus)
        ensures
            r == MarkedSectionStatus::Include,
    {
        MarkedSectionStatus::Include
    }
}

impl std::str::FromStr for MarkedSectionStatus {
    type Err = ParseMarkedSectionStatusError;

    /// Parses a single status keyword from a string: the status that the
    /// keyword stands for, whatever the case of its letters, or an error
    /// if the string is no status keyword.
    fn from_str(s: &str) -> (r: Result<MarkedSectionStatus, ParseMarkedSectionStatusError>)
        ensures
            r == (match MarkedSectionStatus::of_keyword(s@) {
                Some(status) => Ok::<MarkedSectionStatus, ParseMarkedSectionStatusError>(status),
                None => Err(ParseMarkedSectionStatusError),
            }),
    {
        match MarkedSectionStatus::from_keyword(s) {
            Some(status) => Ok(status),
            None => Err(ParseMarkedSectionStatusError),
        }
    }
}

} // verus!
