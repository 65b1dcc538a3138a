//! Recognizers for spaces and comments, and what the other recognizers
//! are built from.

use vstd::prelude::*;
use vstd::slice::slice_subrange;

use crate::chars::find_from;
use crate::chars::first_match;
use crate::chars::matches_at;
use crate::chars::starts_with_at;
use crate::parser::error::cut;
use crate::parser::error::expected;
use crate::parser::error::mismatch;
use crate::parser::error::within;
use crate::parser::error::Context;
use crate::parser::error::Failure;
use crate::parser::error::Parsed;
use crate::text::is_sgml_whitespace;
use crate::text::spec_is_sgml_whitespace;

verus! {

/// A stretch of the source text: the positions of its first character and
/// of the character after its last.
pub type Span = (usize, usize);

/// What a recognizer of a stretch of text yielded, in the terms of
/// specifications.
pub open spec fn span_view(r: Result<(Span, usize), Failure>) -> Parsed<(int, int)> {
    match r {
        Ok((span, rest)) => Ok(((span.0 as int, span.1 as int), rest as int)),
        Err(f) => Err(f@),
    }
}

/// What a recognizer without a value yielded, in the terms of
/// specifications.
pub open spec fn end_view(r: Result<usize, Failure>) -> Parsed<()> {
    match r {
        Ok(rest) => Ok(((), rest as int)),
        Err(f) => Err(f@),
    }
}

/// A recognizer that succeeded stays within the text and does not go
/// back: its stretch lies between the position it started from and the
/// position at which the text goes on.
pub open spec fn span_in_bounds(r: Result<(Span, usize), Failure>, pos: usize, len: nat) -> bool {
    r matches Ok((span, rest)) ==> pos <= span.0 <= span.1 <= rest <= len
}

/// A recognizer without a value that succeeded stays within the text and
/// does not go back.
pub open spec fn end_in_bounds(r: Result<usize, Failure>, pos: usize, len: nat) -> bool {
    r matches Ok(rest) ==> pos <= rest <= len
}

/// The result of a recognizer that may fail to match: a failure that is
/// not fatal becomes a success without a value, at the position `pos`.
pub open spec fn optional<T>(r: Parsed<T>, pos: int) -> Parsed<Option<T>> {
    match r {
        Ok((v, rest)) => Ok((Some(v), rest)),
        Err(f) => if f.fatal {
            Err(f)
        } else {
            Ok((None, pos))
        },
    }
}

/// The two hyphens that open and close a comment.
pub open spec fn comment_delimiter() -> Seq<char> {
    seq!['-', '-']
}

/// The characters that open a declaration.
pub open spec fn declaration_open() -> Seq<char> {
    seq!['<', '!']
}

/// The end of the longest run of SGML whitespace that starts at `pos`.
pub open spec fn spaces_end(s: Seq<char>, pos: int) -> int
    decreases s.len() - pos,
{
    if 0 <= pos < s.len() && spec_is_sgml_whitespace(s[pos]) {
        spaces_end(s, pos + 1)
    } else {
        pos
    }
}

/// A run of whitespace stays within the text.
pub proof fn lemma_spaces_end_bounds(s: Seq<char>, pos: int)
    requires
        0 <= pos <= s.len(),
    ensures
        pos <= spaces_end(s, pos) <= s.len(),
    decreases s.len() - pos,
{
    if pos < s.len() && spec_is_sgml_whitespace(s[pos]) {
        lemma_spaces_end_bounds(s, pos + 1);
    }
}

/// Matches zero or more space characters: returns the position of the
/// first character at or after `pos` that is not SGML whitespace.
pub fn spaces(input: &[char], pos: usize) -> (end: usize)
    requires
        pos <= input@.len(),
    ensures
        end == spaces_end(input@, pos as int),
        pos <= end <= input@.len(),
{
    let mut i: usize = pos;
    while i < input.len() && is_sgml_whitespace(input[i])
        invariant
            pos <= i <= input@.len(),
            spaces_end(input@, pos as int) == spaces_end(input@, i as int),
        decreases input@.len() - i,
    {
        i += 1;
    }
    i
}

/// The length of the longest proper beginning of `delimiter`, of at most
/// `k` characters, that the text after `pos` ends with; 0 if it ends with
/// none.
pub open spec fn partial_delimiter_len(
    s: Seq<char>,
    pos: int,
    delimiter: Seq<char>,
    k: int,
) -> int
    decreases k,
{
    if k <= 0 {
        0
    } else if k <= s.len() - pos && k <= delimiter.len() && matches_at(
        s,
        s.len() - k,
        delimiter.take(k),
    ) {
        k
    } else {
        partial_delimiter_len(s, pos, delimiter, k - 1)
    }
}

/// The text from `pos` up to the first occurrence of `delimiter`, which
/// is consumed too.
///
/// Where the delimiter is missing the failure is fatal. It expects, at the
/// end of the text, the character of the delimiter that comes after the
/// longest beginning of the delimiter that the text ends with, and names
/// `context` at the start of that beginning.
pub open spec fn until_terminated(
    s: Seq<char>,
    pos: int,
    delimiter: Seq<char>,
    context: Context,
) -> Parsed<(int, int)>
    recommends
        delimiter.len() > 0,
{
    match first_match(s, pos, delimiter) {
        Some(i) => Ok(((pos, i), i + delimiter.len())),
        None => {
            let partial = partial_delimiter_len(s, pos, delimiter, delimiter.len() - 1);
            Err(
                expected(s.len() as int, delimiter[partial]).cut().within(s.len() - partial, context),
            )
        },
    }
}

/// Finds the length of the longest proper beginning of `delimiter` that
/// the text after `pos` ends with.
fn partial_match_len(input: &[char], pos: usize, delimiter: &[char]) -> (k: usize)
    requires
        pos <= input@.len(),
        delimiter@.len() > 0,
    ensures
        k == partial_delimiter_len(input@, pos as int, delimiter@, delimiter@.len() - 1),
        k < delimiter@.len(),
        k <= input@.len() - pos,
{
    let mut k: usize = delimiter.len() - 1;
    while k > 0
        invariant
            pos <= input@.len(),
            k < delimiter@.len(),
            partial_delimiter_len(input@, pos as int, delimiter@, delimiter@.len() - 1)
                == partial_delimiter_len(input@, pos as int, delimiter@, k as int),
        decreases k,
    {
        if k <= input.len() - pos {
            let beginning = slice_subrange(delimiter, 0, k);
            assert(beginning@ == delimiter@.take(k as int));
            if starts_with_at(input, input.len() - k, beginning) {
                return k;
            }
        }
        k -= 1;
    }
    k
}

/// Outputs all characters until the given delimiter is found,
/// and also consumes the delimiter itself.
///
/// If the delimiter is not found, fails the parser, preventing recovery.
pub fn take_until_terminated(
    input: &[char],
    pos: usize,
    delimiter: &[char],
    context: Context,
) -> (r: Result<(Span, usize), Failure>)
    requires
        pos <= input@.len(),
        delimiter@.len() > 0,
    ensures
        span_view(r) == until_terminated(input@, pos as int, delimiter@, context),
        span_in_bounds(r, pos, input@.len()),
        r matches Ok((span, rest)) ==> rest == span.1 + delimiter@.len(),
{
    match find_from(input, pos, delimiter) {
        Some(i) => Ok(((pos, i), i + delimiter.len())),
        None => {
            // On multi-character delimiters, like "]]>", if a partial match occurs
            // (for example the input ends in "]]"), try to identify the largest partial match
            let k = partial_match_len(input, pos, delimiter);
            let c = delimiter[k];
            Err(Failure::expected(input.len(), c).cut().within(input.len() - k, context))
        },
    }
}

/// A comment: `--`, then everything up to the next `--`. The value is the
/// text between the two.
pub open spec fn spec_comment(s: Seq<char>, pos: int) -> Parsed<(int, int)> {
    if matches_at(s, pos, comment_delimiter()) {
        until_terminated(s, pos + 2, comment_delimiter(), Context::CommentClose)
    } else {
        Err(mismatch(pos))
    }
}

/// Matches `-- example --` and outputs `  example  `.
pub fn comment(input: &[char], pos: usize) -> (r: Result<(Span, usize), Failure>)
    requires
        pos <= input@.len(),
    ensures
        span_view(r) == spec_comment(input@, pos as int),
        span_in_bounds(r, pos, input@.len()),
        r matches Ok((_, rest)) ==> pos + 4 <= rest,
{
    let delimiter: [char; 2] = ['-', '-'];
    assert(delimiter@ == comment_delimiter());
    if starts_with_at(input, pos, delimiter.as_slice()) {
        take_until_terminated(input, pos + 2, delimiter.as_slice(), Context::CommentClose)
    } else {
        Err(Failure::mismatch(pos))
    }
}

/// The comments that follow a first comment in a comment declaration,
/// each after optional spaces, from `cur` on.
pub open spec fn more_comments(s: Seq<char>, cur: int) -> Parsed<()>
    decreases s.len() - cur,
{
    match spec_comment(s, spaces_end(s, cur)) {
        Ok((_, e)) => if cur < e <= s.len() {
            more_comments(s, e)
        } else {
            Err(mismatch(cur))
        },
        Err(f) => if f.fatal {
            Err(f)
        } else {
            Ok(((), cur))
        },
    }
}

/// What stands between `<!` and the `>` of a comment declaration: nothing,
/// or comments with optional spaces between them.
pub open spec fn comment_declaration_body(s: Seq<char>, pos: int) -> Parsed<()> {
    let comments: Parsed<()> = match spec_comment(s, pos) {
        Ok((_, e)) => more_comments(s, e),
        Err(f) => Err(f),
    };
    match optional(comments, pos) {
        Ok((_, rest)) => Ok(((), rest)),
        Err(f) => Err(f),
    }
}

/// A comment declaration: `<!`, comments with optional spaces between
/// them, and `>`; also the bare `<!>`. The value is the whole declaration.
///
/// Once `<!-` or `<!>` was seen, a failure is fatal.
pub open spec fn spec_comment_declaration(s: Seq<char>, pos: int) -> Parsed<(int, int)> {
    within(
        if !matches_at(s, pos, declaration_open()) {
            Err(mismatch(pos))
        } else if !(pos + 2 < s.len() && (s[pos + 2] == '-' || s[pos + 2] == '>')) {
            Err(mismatch(pos + 2))
        } else {
            match cut(comment_declaration_body(s, pos + 2)) {
                Err(f) => Err(f),
                Ok((_, p)) => if 0 <= p < s.len() && s[p] == '>' {
                    Ok(((pos, p + 1), p + 1))
                } else {
                    Err(expected(p, '>').cut().within(p, Context::CommentClose))
                },
            }
        },
        pos,
        Context::CommentDeclaration,
    )
}

/// Matches the comments that follow a first comment, each after optional
/// spaces.
fn comments_after(input: &[char], pos: usize) -> (r: Result<usize, Failure>)
    requires
        pos <= input@.len(),
    ensures
        end_view(r) == more_comments(input@, pos as int),
        end_in_bounds(r, pos, input@.len()),
{
    let mut cur: usize = pos;
    loop
        invariant
            pos <= cur <= input@.len(),
            more_comments(input@, pos as int) == more_comments(input@, cur as int),
        decreases input@.len() - cur,
    {
        let start = spaces(input, cur);
        match comment(input, start) {
            Ok((_, e)) => {
                cur = e;
            },
            Err(f) => {
                if f.fatal {
                    return Err(f);
                } else {
                    return Ok(cur);
                }
            },
        }
    }
}

/// Matches an entire comment declaration (`<!-- example -->`) and outputs it.
pub fn comment_declaration(input: &[char], pos: usize) -> (r: Result<(Span, usize), Failure>)
    requires
        pos <= input@.len(),
    ensures
        span_view(r) == spec_comment_declaration(input@, pos as int),
        span_in_bounds(r, pos, input@.len()),
        r matches Ok((_, rest)) ==> pos < rest,
{
    let open: [char; 2] = ['<', '!'];
    assert(open@ == declaration_open());
    if !starts_with_at(input, pos, open.as_slice()) {
        return Err(Failure::mismatch(pos).within(pos, Context::CommentDeclaration));
    }
    if !(input.len() - pos > 2 && (input[pos + 2] == '-' || input[pos + 2] == '>')) {
        return Err(Failure::mismatch(pos + 2).within(pos, Context::CommentDeclaration));
    }
    let comments = match comment(input, pos + 2) {
        Ok((_, e)) => comments_after(input, e),
        Err(f) => Err(f),
    };
    let p = match comments {
        Ok(rest) => rest,
        Err(f) => {
            if f.fatal {
                return Err(f.cut().within(pos, Context::CommentDeclaration));
            } else {
                pos + 2
            }
        },
    };
    if p < input.len() && input[p] == '>' {
        Ok(((pos, p + 1), p + 1))
    } else {
        Err(
            Failure::expected(p, '>').cut().within(p, Context::CommentClose).within(
                pos,
                Context::CommentDeclaration,
            ),
        )
    }
}

/// Comment declarations and runs of spaces, from `cur` on; the text goes
/// on after the last of them.
pub open spec fn spec_comments_and_spaces(s: Seq<char>, cur: int) -> Parsed<()>
    decreases s.len() - cur,
{
    match spec_comment_declaration(s, cur) {
        Ok((_, e)) => if cur < e <= s.len() {
            spec_comments_and_spaces(s, e)
        } else {
            Err(mismatch(cur))
        },
        Err(f) => if f.fatal {
            Err(f)
        } else if cur < spaces_end(s, cur) <= s.len() {
            spec_comments_and_spaces(s, spaces_end(s, cur))
        } else {
            Ok(((), cur))
        },
    }
}

/// Matches zero or more comments and spaces.
pub fn comments_and_spaces(input: &[char], pos: usize) -> (r: Result<usize, Failure>)
    requires
        pos <= input@.len(),
    ensures
        end_view(r) == spec_comments_and_spaces(input@, pos as int),
        end_in_bounds(r, pos, input@.len()),
{
    let mut cur: usize = pos;
    loop
        invariant
            pos <= cur <= input@.len(),
            spec_comments_and_spaces(input@, pos as int) == spec_comments_and_spaces(
                input@,
                cur as int,
            ),
        decreases input@.len() - cur,
    {
        match comment_declaration(input, cur) {
            Ok((_, e)) => {
                cur = e;
            },
            Err(f) => {
                if f.fatal {
                    return Err(f);
                }
                let e = spaces(input, cur);
                if e > cur {
                    cur = e;
                } else {
                    return Ok(cur);
                }
            },
        }
    }
}

/// Comment declarations that follow each other, from `cur` on.
pub open spec fn spec_comment_declarations(s: Seq<char>, cur: int) -> Parsed<()>
    decreases s.len() - cur,
{
    match spec_comment_declaration(s, cur) {
        Ok((_, e)) => if cur < e <= s.len() {
            spec_comment_declarations(s, e)
        } else {
            Err(mismatch(cur))
        },
        Err(f) => if f.fatal {
            Err(f)
        } else {
            Ok(((), cur))
        },
    }
}

/// Matches zero or more comment declarations that follow each other.
pub fn comment_declarations(input: &[char], pos: usize) -> (r: Result<usize, Failure>)
    requires
        pos <= input@.len(),
    ensures
        end_view(r) == spec_comment_declarations(input@, pos as int),
        end_in_bounds(r, pos, input@.len()),
{
    let mut cur: usize = pos;
    loop
        invariant
            pos <= cur <= input@.len(),
            spec_comment_declarations(input@, pos as int) == spec_comment_declarations(
                input@,
                cur as int,
            ),
        decreases input@.len() - cur,
    {
        match comment_declaration(input, cur) {
            Ok((_, e)) => {
                cur = e;
            },
            Err(f) => {
                if f.fatal {
                    return Err(f);
                } else {
                    return Ok(cur);
                }
            },
        }
    }
}

} // verus!
