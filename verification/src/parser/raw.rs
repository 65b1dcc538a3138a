//! Recognizers for the lexical constructs of SGML.
//!
//! This is mainly based on <https://www.w3.org/MarkUp/SGML/productions.html>.
//!
//! Each recognizer looks at the source text from a position on and tells
//! where the construct that it matched ends.

use vstd::prelude::*;

use crate::chars::char_is_alphabetic;
use crate::chars::char_is_alphanumeric;
use crate::chars::find_char_from;
use crate::chars::find_from;
use crate::chars::first_char;
use crate::chars::first_match;
use crate::chars::is_alphabetic;
use crate::chars::is_alphanumeric;
use crate::chars::matches_at;
use crate::chars::starts_with_at;
use crate::parser::error::cut;
use crate::parser::error::expected;
use crate::parser::error::mismatch;
use crate::parser::error::recoverable;
use crate::parser::error::within;
use crate::parser::error::Context;
use crate::parser::error::Failure;
use crate::parser::error::Parsed;
use crate::parser::util::comment;
use crate::parser::util::declaration_open;
use crate::parser::util::span_in_bounds;
use crate::parser::util::span_view;
use crate::parser::util::spaces;
use crate::parser::util::spaces_end;
use crate::parser::util::spec_comment;
use crate::parser::util::take_until_terminated;
use crate::parser::util::until_terminated;
use crate::parser::util::Span;
use crate::text::spec_is_sgml_whitespace;
use crate::text::trim_bounds;
use crate::text::trim_range;

verus! {

/// A character may start a name when it is alphabetic.
pub open spec fn spec_is_name_start_char(c: char) -> bool {
    char_is_alphabetic(c)
}

/// A character may continue a name when it is alphanumeric or one of
/// `.`, `-`, `_` and `:`.
pub open spec fn spec_is_name_char(c: char) -> bool {
    char_is_alphanumeric(c) || c == '.' || c == '-' || c == '_' || c == ':'
}

/// Tests whether a character is appropriate for starting a name.
#[verifier::when_used_as_spec(spec_is_name_start_char)]
pub fn is_name_start_char(c: char) -> (r: bool)
    ensures
        r == spec_is_name_start_char(c),
{
    is_alphabetic(c)
}

/// Tests whether a character is appropriate for continuing a name.
#[verifier::when_used_as_spec(spec_is_name_char)]
pub fn is_name_char(c: char) -> (r: bool)
    ensures
        r == spec_is_name_char(c),
{
    // Using LCNMCHAR and UCNMCHAR as defined by HTML4
    is_alphanumeric(c) || c == '.' || c == '-' || c == '_' || c == ':'
}

/// The end of the longest run of name characters that starts at `pos`.
pub open spec fn name_chars_end(s: Seq<char>, pos: int) -> int
    decreases s.len() - pos,
{
    if 0 <= pos < s.len() && spec_is_name_char(s[pos]) {
        name_chars_end(s, pos + 1)
    } else {
        pos
    }
}

/// The end of the name that starts at `pos`, if one does: a name is a name
/// start character and the name characters that follow it.
pub open spec fn name_end(s: Seq<char>, pos: int) -> Option<int> {
    if 0 <= pos < s.len() && spec_is_name_start_char(s[pos]) {
        Some(name_chars_end(s, pos + 1))
    } else {
        None
    }
}

/// A run of name characters stays within the text.
pub proof fn lemma_name_chars_end_bounds(s: Seq<char>, pos: int)
    requires
        0 <= pos <= s.len(),
    ensures
        pos <= name_chars_end(s, pos) <= s.len(),
    decreases s.len() - pos,
{
    if pos < s.len() && spec_is_name_char(s[pos]) {
        lemma_name_chars_end_bounds(s, pos + 1);
    }
}

/// Finds the end of the longest run of name characters that starts at `pos`.
pub fn scan_name_chars(v: &[char], pos: usize) -> (end: usize)
    requires
        pos <= v@.len(),
    ensures
        end == name_chars_end(v@, pos as int),
        pos <= end <= v@.len(),
{
    let mut i: usize = pos;
    while i < v.len() && is_name_char(v[i])
        invariant
            pos <= i <= v@.len(),
            name_chars_end(v@, pos as int) == name_chars_end(v@, i as int),
        decreases v@.len() - i,
    {
        i += 1;
    }
    i
}

/// Finds the end of the name that starts at `pos`, if one does.
pub fn scan_name(v: &[char], pos: usize) -> (end: Option<usize>)
    requires
        pos <= v@.len(),
    ensures
        match end {
            Some(e) => name_end(v@, pos as int) == Some(e as int) && pos < e <= v@.len(),
            None => name_end(v@, pos as int) is None,
        },
{
    if pos < v.len() && is_name_start_char(v[pos]) {
        Some(scan_name_chars(v, pos + 1))
    } else {
        None
    }
}

/// A name, from `pos` on. The value is the name.
pub open spec fn spec_name(s: Seq<char>, pos: int) -> Parsed<(int, int)> {
    match name_end(s, pos) {
        Some(e) => Ok(((pos, e), e)),
        None => Err(mismatch(pos)),
    }
}

/// Matches a name according to HTML4's definition.
pub fn name(input: &[char], pos: usize) -> (r: Result<(Span, usize), Failure>)
    requires
        pos <= input@.len(),
    ensures
        span_view(r) == spec_name(input@, pos as int),
        span_in_bounds(r, pos, input@.len()),
        r matches Ok((span, rest)) ==> span.0 == pos && span.1 == rest && pos < rest,
{
    match scan_name(input, pos) {
        Some(e) => Ok(((pos, e), e)),
        None => Err(Failure::mismatch(pos)),
    }
}

/// The kinds of plain character that runs of text are made of.
#[derive(Clone, Copy, Debug, PartialEq, Eq)]
pub enum CharClass {
    /// In the body of a markup declaration: all but ``<>"'[-`` and
    /// whitespace.
    DeclarationText,
    /// In a declaration subset: all but ``<>"'[]-``.
    SubsetText,
    /// In an unquoted attribute value: all but ``"'>`` and whitespace.
    UnquotedValue,
    /// In the status keywords of a marked section: all but `[]<>!`.
    StatusKeywords,
}

impl CharClass {
    /// Whether the character `c` is of this kind.
    pub open spec fn spec_contains(self, c: char) -> bool {
        match self {
            CharClass::DeclarationText => !(c == '<' || c == '>' || c == '"' || c == '\'' || c
                == '[' || c == '-' || spec_is_sgml_whitespace(c)),
            CharClass::SubsetText => !(c == '<' || c == '>' || c == '"' || c == '\'' || c == '['
                || c == ']' || c == '-'),
            CharClass::UnquotedValue => !(c == '"' || c == '\'' || c == '>'
                || spec_is_sgml_whitespace(c)),
            CharClass::StatusKeywords => !(c == '[' || c == ']' || c == '<' || c == '>' || c
                == '!'),
        }
    }

    /// Tests whether the character `c` is of this kind.
    #[verifier::when_used_as_spec(spec_contains)]
    pub fn contains(self, c: char) -> (r: bool)
        ensures
            r == self.spec_contains(c),
    {
        match self {
            CharClass::DeclarationText => !(c == '<' || c == '>' || c == '"' || c == '\'' || c
                == '[' || c == '-' || c == ' ' || c == '\t' || c == '\r' || c == '\n'),
            CharClass::SubsetText => !(c == '<' || c == '>' || c == '"' || c == '\'' || c == '['
                || c == ']' || c == '-'),
            CharClass::UnquotedValue => !(c == '"' || c == '\'' || c == '>' || c == ' ' || c
                == '\t' || c == '\r' || c == '\n'),
            CharClass::StatusKeywords => !(c == '[' || c == ']' || c == '<' || c == '>' || c
                == '!'),
        }
    }
}

/// The end of the longest run of characters of the given kind that starts
/// at `pos`.
pub open spec fn run_end(s: Seq<char>, pos: int, class: CharClass) -> int
    decreases s.len() - pos,
{
    if 0 <= pos < s.len() && class.spec_contains(s[pos]) {
        run_end(s, pos + 1, class)
    } else {
        pos
    }
}

/// Finds the end of the longest run of characters of the given kind that
/// starts at `pos`.
pub fn scan_run(input: &[char], pos: usize, class: CharClass) -> (end: usize)
    requires
        pos <= input@.len(),
    ensures
        end == run_end(input@, pos as int, class),
        pos <= end <= input@.len(),
{
    let mut i: usize = pos;
    while i < input.len() && class.contains(input[i])
        invariant
            pos <= i <= input@.len(),
            run_end(input@, pos as int, class) == run_end(input@, i as int, class),
        decreases input@.len() - i,
    {
        i += 1;
    }
    i
}

/// The same result, without its value.
pub open spec fn discard<T>(r: Parsed<T>) -> Parsed<()> {
    match r {
        Ok((_, rest)) => Ok(((), rest)),
        Err(f) => Err(f),
    }
}

/// A quoted attribute value, from `pos` on: a quote of either kind, then
/// everything up to the next quote of that kind. The value is the text
/// between the quotes. Once the opening quote was seen, a failure is
/// fatal.
pub open spec fn spec_quoted_attribute_value(s: Seq<char>, pos: int) -> Parsed<(int, int)> {
    if 0 <= pos < s.len() && s[pos] == '\'' {
        until_terminated(s, pos + 1, seq!['\''], Context::ClosingSingleQuote)
    } else if 0 <= pos < s.len() && s[pos] == '"' {
        until_terminated(s, pos + 1, seq!['"'], Context::ClosingDoubleQuote)
    } else {
        Err(expected(pos, '"'))
    }
}

/// Matches a quoted attribute value (`"example"` or `'example'`) and outputs its contents (`example`).
pub fn quoted_attribute_value(input: &[char], pos: usize) -> (r: Result<(Span, usize), Failure>)
    requires
        pos <= input@.len(),
    ensures
        span_view(r) == spec_quoted_attribute_value(input@, pos as int),
        span_in_bounds(r, pos, input@.len()),
        r matches Ok((_, rest)) ==> pos < rest,
{
    if pos < input.len() && input[pos] == '\'' {
        let quote: [char; 1] = ['\''];
        assert(quote@ == seq!['\'']);
        take_until_terminated(input, pos + 1, quote.as_slice(), Context::ClosingSingleQuote)
    } else if pos < input.len() && input[pos] == '"' {
        let quote: [char; 1] = ['"'];
        assert(quote@ == seq!['"']);
        take_until_terminated(input, pos + 1, quote.as_slice(), Context::ClosingDoubleQuote)
    } else {
        Err(Failure::expected(pos, '"'))
    }
}

/// An unquoted attribute value, from `pos` on: everything up to
/// whitespace, `>`, `'` or `"`, and at least one character.
pub open spec fn spec_unquoted_attribute_value(s: Seq<char>, pos: int) -> Parsed<(int, int)> {
    let end = run_end(s, pos, CharClass::UnquotedValue);
    if end > pos {
        Ok(((pos, end), end))
    } else {
        Err(mismatch(pos))
    }
}

/// Matches an unquoted attribute value and outputs it.
pub fn unquoted_attribute_value(input: &[char], pos: usize) -> (r: Result<(Span, usize), Failure>)
    requires
        pos <= input@.len(),
    ensures
        span_view(r) == spec_unquoted_attribute_value(input@, pos as int),
        span_in_bounds(r, pos, input@.len()),
        r matches Ok((_, rest)) ==> pos < rest,
{
    let end = scan_run(input, pos, CharClass::UnquotedValue);
    if end > pos {
        Ok(((pos, end), end))
    } else {
        Err(Failure::mismatch(pos))
    }
}

/// An attribute value, unquoted or quoted, from `pos` on. The value is
/// the text without quotes, and whether there were quotes.
pub open spec fn spec_attribute_value(s: Seq<char>, pos: int) -> Parsed<((int, int), bool)> {
    match spec_unquoted_attribute_value(s, pos) {
        Ok((span, rest)) => Ok(((span, false), rest)),
        Err(_) => match spec_quoted_attribute_value(s, pos) {
            Ok((span, rest)) => Ok(((span, true), rest)),
            Err(f) => Err(f),
        },
    }
}

/// What a recognizer of an attribute value yielded, in the terms of
/// specifications.
pub open spec fn value_view(r: Result<((Span, bool), usize), Failure>) -> Parsed<
    ((int, int), bool),
> {
    match r {
        Ok(((span, quoted), rest)) => Ok((((span.0 as int, span.1 as int), quoted), rest as int)),
        Err(f) => Err(f@),
    }
}

/// Matches either a [quoted](quoted_attribute_value) or
/// [unquoted attribute value](unquoted_attribute_value).
///
/// Outputs the value (without quotes) and a boolean indicating whether
/// quotes were present or not.
pub fn attribute_value(input: &[char], pos: usize) -> (r: Result<((Span, bool), usize), Failure>)
    requires
        pos <= input@.len(),
    ensures
        value_view(r) == spec_attribute_value(input@, pos as int),
        r matches Ok(((span, _), rest)) ==> pos <= span.0 <= span.1 <= rest <= input@.len() && pos
            < rest,
{
    match unquoted_attribute_value(input, pos) {
        Ok((span, rest)) => Ok(((span, false), rest)),
        Err(_) => match quoted_attribute_value(input, pos) {
            Ok((span, rest)) => Ok(((span, true), rest)),
            Err(f) => Err(f),
        },
    }
}

/// The parts of an attribute in the source text: its name and, if it has
/// one, its value without quotes and whether there were quotes.
pub type RawAttribute = (Span, Option<(Span, bool)>);

/// The parts of an attribute, in the terms of specifications.
pub type RawAttributeView = ((int, int), Option<((int, int), bool)>);

/// What a recognizer of an attribute yielded, in the terms of
/// specifications.
pub open spec fn attribute_view(r: Result<(RawAttribute, usize), Failure>) -> Parsed<
    RawAttributeView,
> {
    match r {
        Ok(((name, value), rest)) => Ok(
            (
                (
                    (name.0 as int, name.1 as int),
                    match value {
                        Some((span, quoted)) => Some(((span.0 as int, span.1 as int), quoted)),
                        None => None,
                    },
                ),
                rest as int,
            ),
        ),
        Err(f) => Err(f@),
    }
}

/// An attribute, from `pos` on: a name and, optionally, `=` with optional
/// spaces around it and a value. Once the `=` was seen, a failure is
/// fatal.
pub open spec fn spec_attribute(s: Seq<char>, pos: int) -> Parsed<RawAttributeView> {
    within(
        match name_end(s, pos) {
            None => Err(mismatch(pos)),
            Some(e) => {
                let p = spaces_end(s, e);
                if 0 <= p < s.len() && s[p] == '=' {
                    let start = spaces_end(s, p + 1);
                    match within(cut(spec_attribute_value(s, start)), start, Context::AttributeValue) {
                        Ok((value, rest)) => Ok((((pos, e), Some(value)), rest)),
                        Err(f) => Err(f),
                    }
                } else {
                    Ok((((pos, e), None), e))
                }
            },
        },
        pos,
        Context::Attribute,
    )
}

/// Matches an attribute key-value pair and outputs the key and value (without quotes).
pub fn attribute(input: &[char], pos: usize) -> (r: Result<(RawAttribute, usize), Failure>)
    requires
        pos <= input@.len(),
    ensures
        attribute_view(r) == spec_attribute(input@, pos as int),
        r matches Ok(((name, value), rest)) ==> {
            &&& pos == name.0 < name.1 <= rest <= input@.len()
            &&& value matches Some((span, _)) ==> name.1 <= span.0 <= span.1 <= rest
        },
{
    match scan_name(input, pos) {
        None => Err(Failure::mismatch(pos).within(pos, Context::Attribute)),
        Some(e) => {
            let p = spaces(input, e);
            if p < input.len() && input[p] == '=' {
                let start = spaces(input, p + 1);
                match attribute_value(input, start) {
                    Ok((value, rest)) => Ok((((pos, e), Some(value)), rest)),
                    Err(f) => Err(
                        f.cut().within(start, Context::AttributeValue).within(
                            pos,
                            Context::Attribute,
                        ),
                    ),
                }
            } else {
                Ok((((pos, e), None), e))
            }
        },
    }
}

/// One item of the body of a markup declaration, at `pos`: a comment, a
/// quoted string, a declaration subset, a single hyphen, or a run of
/// other characters.
pub open spec fn declaration_item(s: Seq<char>, pos: int) -> Parsed<()>
    decreases s.len() - pos, 1int,
{
    let comment = spec_comment(s, pos);
    if !recoverable(comment) {
        discard(comment)
    } else {
        let quoted = spec_quoted_attribute_value(s, pos);
        if !recoverable(quoted) {
            discard(quoted)
        } else {
            let subset = spec_declaration_subset(s, pos);
            if !recoverable(subset) {
                discard(subset)
            } else if 0 <= pos < s.len() && s[pos] == '-' && !(pos + 1 < s.len() && s[pos + 1]
                == '-') {
                Ok(((), pos + 1))
            } else if run_end(s, pos, CharClass::DeclarationText) > pos {
                Ok(((), run_end(s, pos, CharClass::DeclarationText)))
            } else {
                Err(mismatch(pos))
            }
        }
    }
}

/// The items of the body of a markup declaration, each after optional
/// spaces, from `cur` on. The text goes on after the last item, before the
/// spaces that follow it.
pub open spec fn declaration_items(s: Seq<char>, cur: int) -> Parsed<()>
    decreases s.len() - cur, 2int,
{
    let start = spaces_end(s, cur);
    if !(cur <= start <= s.len()) {
        Err(mismatch(cur))
    } else {
        match declaration_item(s, start) {
            Ok((_, e)) => if cur < e <= s.len() {
                declaration_items(s, e)
            } else {
                Err(mismatch(cur))
            },
            Err(f) => if f.fatal {
                Err(f)
            } else {
                Ok(((), cur))
            },
        }
    }
}

/// A markup declaration, from `pos` on: `<!`, a name (the keyword), a
/// body and `>`. The body is made of comments, quoted strings, declaration
/// subsets and other characters; a `>` inside a comment, a quoted string
/// or a subset does not close the declaration. The value is the keyword
/// and the body without the whitespace around it.
///
/// Once the keyword was seen, a failure is fatal.
pub open spec fn spec_markup_declaration(s: Seq<char>, pos: int) -> Parsed<
    ((int, int), (int, int)),
>
    decreases s.len() - pos, 0int,
{
    within(
        if !matches_at(s, pos, declaration_open()) {
            Err(mismatch(pos))
        } else {
            match name_end(s, pos + 2) {
                None => Err(mismatch(pos + 2)),
                Some(e) => {
                    let start = spaces_end(s, e);
                    if !(pos < start <= s.len()) {
                        Err(mismatch(pos))
                    } else {
                        match cut(declaration_items(s, start)) {
                            Err(f) => Err(f),
                            Ok((_, end)) => {
                                let p = spaces_end(s, end);
                                if 0 <= p < s.len() && s[p] == '>' {
                                    Ok((((pos + 2, e), (start, end)), p + 1))
                                } else {
                                    Err(expected(p, '>').cut())
                                }
                            },
                        }
                    }
                },
            }
        },
        pos,
        Context::MarkupDeclaration,
    )
}

/// One item of a declaration subset, at `pos`: a comment, a quoted
/// string, a nested subset, a markup declaration, or a run of other
/// characters.
pub open spec fn subset_item(s: Seq<char>, pos: int) -> Parsed<()>
    decreases s.len() - pos, 1int,
{
    let comment = spec_comment(s, pos);
    if !recoverable(comment) {
        discard(comment)
    } else {
        let quoted = spec_quoted_attribute_value(s, pos);
        if !recoverable(quoted) {
            discard(quoted)
        } else {
            let subset = spec_declaration_subset(s, pos);
            if !recoverable(subset) {
                discard(subset)
            } else {
                let declaration = spec_markup_declaration(s, pos);
                if !recoverable(declaration) {
                    discard(declaration)
                } else if run_end(s, pos, CharClass::SubsetText) > pos {
                    Ok(((), run_end(s, pos, CharClass::SubsetText)))
                } else {
                    Err(mismatch(pos))
                }
            }
        }
    }
}

/// The items of a declaration subset, from `cur` on.
pub open spec fn subset_items(s: Seq<char>, cur: int) -> Parsed<()>
    decreases s.len() - cur, 2int,
{
    match subset_item(s, cur) {
        Ok((_, e)) => if cur < e <= s.len() {
            subset_items(s, e)
        } else {
            Err(mismatch(cur))
        },
        Err(f) => if f.fatal {
            Err(f)
        } else {
            Ok(((), cur))
        },
    }
}

/// A declaration subset, from `pos` on: `[`, items, and `]`. The value is
/// the text between the brackets. Once the `[` was seen, a missing `]` is
/// fatal.
pub open spec fn spec_declaration_subset(s: Seq<char>, pos: int) -> Parsed<(int, int)>
    decreases s.len() - pos, 0int,
{
    within(
        if !(0 <= pos < s.len() && s[pos] == '[') {
            Err(expected(pos, '['))
        } else {
            match subset_items(s, pos + 1) {
                Err(f) => Err(f),
                Ok((_, end)) => if 0 <= end < s.len() && s[end] == ']' {
                    Ok(((pos + 1, end), end + 1))
                } else {
                    Err(expected(end, ']').cut())
                },
            }
        },
        pos,
        Context::DeclarationSubset,
    )
}

/// What a recognizer of a markup declaration yielded, in the terms of
/// specifications.
pub open spec fn declaration_view(r: Result<((Span, Span), usize), Failure>) -> Parsed<
    ((int, int), (int, int)),
> {
    match r {
        Ok(((keyword, body), rest)) => Ok(
            (
                ((keyword.0 as int, keyword.1 as int), (body.0 as int, body.1 as int)),
                rest as int,
            ),
        ),
        Err(f) => Err(f@),
    }
}

/// Matches `<!DOCTYPE example>` and outputs `("DOCTYPE", "example")`.
#[verifier::loop_isolation(false)]
pub fn markup_declaration(input: &[char], pos: usize) -> (r: Result<((Span, Span), usize), Failure>)
    requires
        pos <= input@.len(),
    ensures
        declaration_view(r) == spec_markup_declaration(input@, pos as int),
        r matches Ok(((keyword, body), rest)) ==> pos < keyword.0 <= keyword.1 <= body.0 <= body.1
            < rest <= input@.len(),
    decreases input@.len() - pos,
{
    let open: [char; 2] = ['<', '!'];
    assert(open@ == declaration_open());
    if !starts_with_at(input, pos, open.as_slice()) {
        return Err(Failure::mismatch(pos).within(pos, Context::MarkupDeclaration));
    }
    let e = match scan_name(input, pos + 2) {
        None => {
            return Err(Failure::mismatch(pos + 2).within(pos, Context::MarkupDeclaration));
        },
        Some(e) => e,
    };
    let start = spaces(input, e);
    let mut cur: usize = start;
    loop
        invariant
            pos < start <= cur <= input@.len(),
            declaration_items(input@, start as int) == declaration_items(input@, cur as int),
        decreases input@.len() - cur,
    {
        let q = spaces(input, cur);
        let item: Result<usize, Failure> = match comment(input, q) {
            Ok((_, rest)) => Ok(rest),
            Err(f) => if f.fatal {
                Err(f)
            } else {
                match quoted_attribute_value(input, q) {
                    Ok((_, rest)) => Ok(rest),
                    Err(f) => if f.fatal {
                        Err(f)
                    } else {
                        match declaration_subset(input, q) {
                            Ok((_, rest)) => Ok(rest),
                            Err(f) => if f.fatal {
                                Err(f)
                            } else if q < input.len() && input[q] == '-' && !(input.len() - q > 1
                                && input[q + 1] == '-') {
                                Ok(q + 1)
                            } else {
                                let end = scan_run(input, q, CharClass::DeclarationText);
                                if end > q {
                                    Ok(end)
                                } else {
                                    Err(Failure::mismatch(q))
                                }
                            },
                        }
                    },
                }
            },
        };
        assert(crate::parser::util::end_view(item) == declaration_item(input@, q as int));
        match item {
            Ok(next) => {
                assert(next > cur);
                cur = next;
            },
            Err(f) => {
                if f.fatal {
                    return Err(f.cut().within(pos, Context::MarkupDeclaration));
                }
                let p = spaces(input, cur);
                if p < input.len() && input[p] == '>' {
                    return Ok((((pos + 2, e), (start, cur)), p + 1));
                } else {
                    return Err(
                        Failure::expected(p, '>').cut().within(pos, Context::MarkupDeclaration),
                    );
                }
            },
        }
    }
}

/// Matches a declaration subset (`[ ... ]`) and outputs what stands
/// between the brackets.
#[verifier::loop_isolation(false)]
pub fn declaration_subset(input: &[char], pos: usize) -> (r: Result<(Span, usize), Failure>)
    requires
        pos <= input@.len(),
    ensures
        span_view(r) == spec_declaration_subset(input@, pos as int),
        span_in_bounds(r, pos, input@.len()),
        r matches Ok((_, rest)) ==> pos < rest,
    decreases input@.len() - pos,
{
    if !(pos < input.len() && input[pos] == '[') {
        return Err(Failure::expected(pos, '[').within(pos, Context::DeclarationSubset));
    }
    let mut cur: usize = pos + 1;
    loop
        invariant
            pos < cur <= input@.len(),
            subset_items(input@, pos + 1) == subset_items(input@, cur as int),
        decreases input@.len() - cur,
    {
        let item: Result<usize, Failure> = match comment(input, cur) {
            Ok((_, rest)) => Ok(rest),
            Err(f) => if f.fatal {
                Err(f)
            } else {
                match quoted_attribute_value(input, cur) {
                    Ok((_, rest)) => Ok(rest),
                    Err(f) => if f.fatal {
                        Err(f)
                    } else {
                        match declaration_subset(input, cur) {
                            Ok((_, rest)) => Ok(rest),
                            Err(f) => if f.fatal {
                                Err(f)
                            } else {
                                match markup_declaration(input, cur) {
                                    Ok((_, rest)) => Ok(rest),
                                    Err(f) => if f.fatal {
                                        Err(f)
                                    } else {
                                        let end = scan_run(input, cur, CharClass::SubsetText);
                                        if end > cur {
                                            Ok(end)
                                        } else {
                                            Err(Failure::mismatch(cur))
                                        }
                                    },
                                }
                            },
                        }
                    },
                }
            },
        };
        assert(crate::parser::util::end_view(item) == subset_item(input@, cur as int));
        match item {
            Ok(next) => {
                assert(next > cur);
                cur = next;
            },
            Err(f) => {
                if f.fatal {
                    return Err(f.within(pos, Context::DeclarationSubset));
                }
                if cur < input.len() && input[cur] == ']' {
                    return Ok(((pos + 1, cur), cur + 1));
                } else {
                    return Err(
                        Failure::expected(cur, ']').cut().within(pos, Context::DeclarationSubset),
                    );
                }
            },
        }
    }
}

/// The characters that open a marked section.
pub open spec fn marked_section_start() -> Seq<char> {
    seq!['<', '!', '[']
}

/// The characters that close a marked section.
pub open spec fn marked_section_close() -> Seq<char> {
    seq![']', ']', '>']
}

/// The start of a marked section, from `pos` on: `<![`, the status
/// keywords, and `[`. The value is the text of the keywords without the
/// whitespace around it. Once `<![` was seen, a failure is fatal.
pub open spec fn spec_marked_section_start_and_keywords(s: Seq<char>, pos: int) -> Parsed<
    (int, int),
> {
    if !matches_at(s, pos, marked_section_start()) {
        Err(mismatch(pos))
    } else {
        let end = run_end(s, pos + 3, CharClass::StatusKeywords);
        if 0 <= end < s.len() && s[end] == '[' {
            Ok((trim_bounds(s, pos + 3, end), end + 1))
        } else {
            Err(expected(end, '[').cut())
        }
    }
}

/// Matches `<![foo[` and outputs `foo`.
pub fn marked_section_start_and_keywords(input: &[char], pos: usize) -> (r: Result<
    (Span, usize),
    Failure,
>)
    requires
        pos <= input@.len(),
    ensures
        span_view(r) == spec_marked_section_start_and_keywords(input@, pos as int),
        span_in_bounds(r, pos, input@.len()),
        r matches Ok((_, rest)) ==> pos + 3 < rest,
{
    let start: [char; 3] = ['<', '!', '['];
    assert(start@ == marked_section_start());
    if !starts_with_at(input, pos, start.as_slice()) {
        return Err(Failure::mismatch(pos));
    }
    let end = scan_run(input, pos + 3, CharClass::StatusKeywords);
    if end < input.len() && input[end] == '[' {
        Ok((trim_range(input, pos + 3, end), end + 1))
    } else {
        Err(Failure::expected(end, '[').cut())
    }
}

/// The content of a `CDATA` or `RCDATA` marked section, from `pos` on:
/// everything up to the first `]]>`, which is consumed too.
pub open spec fn spec_marked_section_body_character_data(s: Seq<char>, pos: int) -> Parsed<
    (int, int),
> {
    until_terminated(s, pos, marked_section_close(), Context::MarkedSectionEnd)
}

/// Matches the content for `CDATA` and `RCDATA` marked sections,
/// immediately after [`marked_section_start_and_keywords`].
///
/// These sections do not nest, meaning they end on the first `]]>` found.
pub fn marked_section_body_character_data(input: &[char], pos: usize) -> (r: Result<
    (Span, usize),
    Failure,
>)
    requires
        pos <= input@.len(),
    ensures
        span_view(r) == spec_marked_section_body_character_data(input@, pos as int),
        span_in_bounds(r, pos, input@.len()),
        r matches Ok((span, rest)) ==> span.0 == pos && rest == span.1 + 3,
{
    let close: [char; 3] = [']', ']', '>'];
    assert(close@ == marked_section_close());
    take_until_terminated(input, pos, close.as_slice(), Context::MarkedSectionEnd)
}

/// The content of an `IGNORE` marked section, from `pos` on: everything
/// up to the first `]]>` that closes no `<![` of the content, which is
/// consumed too.
///
/// Where a `<![` stands before the first `]]>`, the content goes on over
/// the content of the section that it opens, and from there over what is
/// the content of an `IGNORE` section again.
pub open spec fn spec_marked_section_body_ignore(s: Seq<char>, pos: int) -> Parsed<(int, int)>
    decreases s.len() - pos,
{
    match spec_marked_section_body_character_data(s, pos) {
        Err(f) => Err(f),
        Ok(((_, close), rest)) => {
            match first_match(s, pos, marked_section_start()) {
                Some(open) => if open + 3 <= close {
                    if !(0 <= pos <= open && open + 3 <= s.len()) {
                        Err(mismatch(pos))
                    } else {
                        match within(
                            spec_marked_section_body_ignore(s, open + 3),
                            open + 3,
                            Context::NestedMarkedSectionPair,
                        ) {
                            Err(f) => Err(f),
                            Ok((_, after)) => if !(pos < after <= s.len()) {
                                Err(mismatch(pos))
                            } else {
                                match spec_marked_section_body_ignore(s, after) {
                                    Err(f) => Err(f),
                                    Ok((_, end)) => Ok(((pos, end - 3), end)),
                                }
                            },
                        }
                    }
                } else {
                    Ok(((pos, close), rest))
                },
                None => Ok(((pos, close), rest)),
            }
        },
    }
}

/// Matches the content for `IGNORE` marked sections,
/// immediately after [`marked_section_start_and_keywords`].
///
/// The content of `IGNORE` marked sections will match `<![` and `]]>` pairs,
/// stopping on the first unmatched `]]>` found.
pub fn marked_section_body_ignore(input: &[char], pos: usize) -> (r: Result<(Span, usize), Failure>)
    requires
        pos <= input@.len(),
    ensures
        span_view(r) == spec_marked_section_body_ignore(input@, pos as int),
        span_in_bounds(r, pos, input@.len()),
        r matches Ok((span, rest)) ==> span.0 == pos && rest == span.1 + 3,
    decreases input@.len() - pos,
{
    let (close, rest) = match marked_section_body_character_data(input, pos) {
        Err(f) => {
            return Err(f);
        },
        Ok(((_, close), rest)) => (close, rest),
    };
    let start: [char; 3] = ['<', '!', '['];
    assert(start@ == marked_section_start());
    match find_from(input, pos, start.as_slice()) {
        Some(open) => {
            if open + 3 <= close {
                let after = match marked_section_body_ignore(input, open + 3) {
                    Err(f) => {
                        return Err(f.within(open + 3, Context::NestedMarkedSectionPair));
                    },
                    Ok((_, after)) => after,
                };
                match marked_section_body_ignore(input, after) {
                    Err(f) => Err(f),
                    Ok((_, end)) => Ok(((pos, end - 3), end)),
                }
            } else {
                Ok(((pos, close), rest))
            }
        },
        None => Ok(((pos, close), rest)),
    }
}

/// The end of a marked section, at `pos`: `]]>`.
pub open spec fn spec_marked_section_end(s: Seq<char>, pos: int) -> Parsed<(int, int)> {
    if matches_at(s, pos, marked_section_close()) {
        Ok(((pos, pos + 3), pos + 3))
    } else {
        Err(mismatch(pos))
    }
}

/// Matches `]]>` and outputs it.
pub fn marked_section_end(input: &[char], pos: usize) -> (r: Result<(Span, usize), Failure>)
    requires
        pos <= input@.len(),
    ensures
        span_view(r) == spec_marked_section_end(input@, pos as int),
        span_in_bounds(r, pos, input@.len()),
{
    let close: [char; 3] = [']', ']', '>'];
    assert(close@ == marked_section_close());
    if starts_with_at(input, pos, close.as_slice()) {
        Ok(((pos, pos + 3), pos + 3))
    } else {
        Err(Failure::mismatch(pos))
    }
}

/// A processing instruction, from `pos` on: `<?` and everything up to and
/// with the next `>`. The value is the whole instruction. Once `<?` was
/// seen, a failure is fatal.
pub open spec fn spec_processing_instruction(s: Seq<char>, pos: int) -> Parsed<(int, int)> {
    within(
        if !matches_at(s, pos, seq!['<', '?']) {
            Err(mismatch(pos))
        } else {
            match until_terminated(s, pos + 2, seq!['>'], Context::ProcessingInstructionEnd) {
                Ok((_, rest)) => Ok(((pos, rest), rest)),
                Err(f) => Err(f),
            }
        },
        pos,
        Context::ProcessingInstruction,
    )
}

/// Matches a processing instruction (`<?example>`) and outputs it.
pub fn processing_instruction(input: &[char], pos: usize) -> (r: Result<(Span, usize), Failure>)
    requires
        pos <= input@.len(),
    ensures
        span_view(r) == spec_processing_instruction(input@, pos as int),
        span_in_bounds(r, pos, input@.len()),
        r matches Ok((_, rest)) ==> pos < rest,
{
    let open: [char; 2] = ['<', '?'];
    assert(open@ == seq!['<', '?']);
    if !starts_with_at(input, pos, open.as_slice()) {
        return Err(Failure::mismatch(pos).within(pos, Context::ProcessingInstruction));
    }
    let close: [char; 1] = ['>'];
    assert(close@ == seq!['>']);
    match take_until_terminated(
        input,
        pos + 2,
        close.as_slice(),
        Context::ProcessingInstructionEnd,
    ) {
        Ok((_, rest)) => Ok(((pos, rest), rest)),
        Err(f) => Err(f.within(pos, Context::ProcessingInstruction)),
    }
}

/// Defines how [`marked_section_end`] sequences should be handled.
#[derive(Clone, Copy, Debug, Eq, PartialEq)]
pub enum MarkedSectionEndHandling {
    /// Treat occurrences of `]]>` as plain text.
    TreatAsText,
    /// Stop parsing when an occurrence of `]]>` is found.
    StopParsing,
}

/// The end of the plain text that starts at `pos`: the position of the
/// first `<`, or of the first `]]>` if that comes first and ends the
/// text, or the end of the source text.
pub open spec fn plain_text_end(s: Seq<char>, pos: int, mse: MarkedSectionEndHandling) -> int {
    let next_tag = match first_char(s, pos, '<') {
        Some(i) => i,
        None => s.len() as int,
    };
    match mse {
        MarkedSectionEndHandling::StopParsing => match first_match(s, pos, marked_section_close()) {
            Some(j) => if j < next_tag {
                j
            } else {
                next_tag
            },
            None => next_tag,
        },
        MarkedSectionEndHandling::TreatAsText => next_tag,
    }
}

/// Plain text, from `pos` on: at least one character.
pub open spec fn spec_plain_text(s: Seq<char>, pos: int, mse: MarkedSectionEndHandling) -> Parsed<
    (int, int),
> {
    let end = plain_text_end(s, pos, mse);
    if end == pos {
        Err(mismatch(pos))
    } else {
        Ok(((pos, end), end))
    }
}

/// Finds the end of the plain text that starts at `pos`.
pub fn scan_plain_text(input: &[char], pos: usize, mse: MarkedSectionEndHandling) -> (end: usize)
    requires
        pos <= input@.len(),
    ensures
        end == plain_text_end(input@, pos as int, mse),
        pos <= end <= input@.len(),
{
    let next_tag = match find_char_from(input, pos, '<') {
        Some(i) => i,
        None => input.len(),
    };
    match mse {
        MarkedSectionEndHandling::StopParsing => {
            let close: [char; 3] = [']', ']', '>'];
            assert(close@ == marked_section_close());
            match find_from(input, pos, close.as_slice()) {
                Some(j) => if j < next_tag {
                    j
                } else {
                    next_tag
                },
                None => next_tag,
            }
        },
        MarkedSectionEndHandling::TreatAsText => next_tag,
    }
}

/// Matches until the first `<` (or `]]>` in [`MarkedSectionEndHandling::StopParsing`] mode).
pub fn plain_text(input: &[char], pos: usize, mse: MarkedSectionEndHandling) -> (r: Result<
    (Span, usize),
    Failure,
>)
    requires
        pos <= input@.len(),
    ensures
        span_view(r) == spec_plain_text(input@, pos as int, mse),
        span_in_bounds(r, pos, input@.len()),
{
    let end = scan_plain_text(input, pos, mse);
    if end == pos {
        Err(Failure::mismatch(pos))
    } else {
        Ok(((pos, end), end))
    }
}

/// Whether what stands at `pos`, right after a `<`, makes that `<` the
/// start of markup: `?`, `!-`, `![`, `!` and a name start character, `/`
/// and a name start character, `/>`, `>`, or a name start character.
pub open spec fn spec_is_markup_start(s: Seq<char>, pos: int) -> bool {
    0 <= pos < s.len() && {
        ||| s[pos] == '?'
        ||| (s[pos] == '!' && pos + 1 < s.len() && (s[pos + 1] == '-' || s[pos + 1] == '['
            || spec_is_name_start_char(s[pos + 1])))
        ||| (s[pos] == '/' && pos + 1 < s.len() && (spec_is_name_start_char(s[pos + 1]) || s[pos
            + 1] == '>'))
        ||| spec_is_name_start_char(s[pos])
        ||| s[pos] == '>'
    }
}

/// Tests whether what stands at `pos`, right after a `<`, makes that `<`
/// the start of markup.
pub fn is_markup_start(input: &[char], pos: usize) -> (r: bool)
    requires
        pos <= input@.len(),
    ensures
        r == spec_is_markup_start(input@, pos as int),
{
    if pos >= input.len() {
        return false;
    }
    let c = input[pos];
    if c == '?' || c == '>' {
        return true;
    }
    if c == '!' {
        if input.len() - pos > 1 {
            let d = input[pos + 1];
            if d == '-' || d == '[' || is_name_start_char(d) {
                return true;
            }
        }
    }
    if c == '/' {
        if input.len() - pos > 1 {
            let d = input[pos + 1];
            if is_name_start_char(d) || d == '>' {
                return true;
            }
        }
    }
    is_name_start_char(c)
}

/// The end of the text that goes on at `cur`: text goes on over each `<`
/// that starts no markup, and over the plain text that follows it.
pub open spec fn text_end(s: Seq<char>, cur: int, mse: MarkedSectionEndHandling) -> int
    decreases s.len() - cur,
{
    if 0 <= cur < s.len() && s[cur] == '<' && !spec_is_markup_start(s, cur + 1) {
        let next = plain_text_end(s, cur + 1, mse);
        if cur < next <= s.len() {
            text_end(s, next, mse)
        } else {
            cur
        }
    } else {
        cur
    }
}

/// Text, from `pos` on: the longest run of characters, at least one, that
/// ends before the start of a tag, a declaration, a processing
/// instruction or a marked section and, if `mse` asks for it, before
/// `]]>`. The value is the text.
pub open spec fn spec_text(s: Seq<char>, pos: int, mse: MarkedSectionEndHandling) -> Parsed<
    (int, int),
> {
    let end = text_end(s, plain_text_end(s, pos, mse), mse);
    if end == pos {
        Err(mismatch(pos))
    } else {
        Ok(((pos, end), end))
    }
}

/// Matches character sequences.
pub fn text(input: &[char], pos: usize, mse: MarkedSectionEndHandling) -> (r: Result<
    (Span, usize),
    Failure,
>)
    requires
        pos <= input@.len(),
    ensures
        span_view(r) == spec_text(input@, pos as int, mse),
        span_in_bounds(r, pos, input@.len()),
        r matches Ok((span, rest)) ==> span.0 == pos && span.1 == rest && pos < rest,
{
    let start = scan_plain_text(input, pos, mse);
    let mut cur: usize = start;
    while cur < input.len() && input[cur] == '<' && !is_markup_start(input, cur + 1)
        invariant
            pos <= start <= cur <= input@.len(),
            text_end(input@, start as int, mse) == text_end(input@, cur as int, mse),
        decreases input@.len() - cur,
    {
        cur = scan_plain_text(input, cur + 1, mse);
    }
    if cur == pos {
        Err(Failure::mismatch(pos))
    } else {
        Ok(((pos, cur), cur))
    }
}

/// The opening of a start tag, from `pos` on: `<` and a name. The value
/// is the name.
pub open spec fn spec_open_start_tag(s: Seq<char>, pos: int) -> Parsed<(int, int)> {
    if 0 <= pos < s.len() && s[pos] == '<' {
        spec_name(s, pos + 1)
    } else {
        Err(expected(pos, '<'))
    }
}

/// Matches `<foo` and outputs `foo`.
pub fn open_start_tag(input: &[char], pos: usize) -> (r: Result<(Span, usize), Failure>)
    requires
        pos <= input@.len(),
    ensures
        span_view(r) == spec_open_start_tag(input@, pos as int),
        span_in_bounds(r, pos, input@.len()),
        r matches Ok((span, rest)) ==> span.0 < span.1 == rest,
{
    if pos < input.len() && input[pos] == '<' {
        name(input, pos + 1)
    } else {
        Err(Failure::expected(pos, '<'))
    }
}

/// The closing of a start tag, at `pos`: `>`.
pub open spec fn spec_close_start_tag(s: Seq<char>, pos: int) -> Parsed<(int, int)> {
    if 0 <= pos < s.len() && s[pos] == '>' {
        Ok(((pos, pos + 1), pos + 1))
    } else {
        Err(expected(pos, '>'))
    }
}

/// Matches `>` and outputs it.
pub fn close_start_tag(input: &[char], pos: usize) -> (r: Result<(Span, usize), Failure>)
    requires
        pos <= input@.len(),
    ensures
        span_view(r) == spec_close_start_tag(input@, pos as int),
        span_in_bounds(r, pos, input@.len()),
{
    if pos < input.len() && input[pos] == '>' {
        Ok(((pos, pos + 1), pos + 1))
    } else {
        Err(Failure::expected(pos, '>'))
    }
}

/// The given characters, at `pos`. The value is their stretch.
pub open spec fn spec_tag(s: Seq<char>, pos: int, tag: Seq<char>) -> Parsed<(int, int)> {
    if matches_at(s, pos, tag) {
        Ok(((pos, pos + tag.len()), pos + tag.len()))
    } else {
        Err(mismatch(pos))
    }
}

/// Matches `/>` and outputs it.
pub fn xml_close_empty_element(input: &[char], pos: usize) -> (r: Result<(Span, usize), Failure>)
    requires
        pos <= input@.len(),
    ensures
        span_view(r) == spec_tag(input@, pos as int, seq!['/', '>']),
        span_in_bounds(r, pos, input@.len()),
{
    let tag: [char; 2] = ['/', '>'];
    assert(tag@ == seq!['/', '>']);
    if starts_with_at(input, pos, tag.as_slice()) {
        Ok(((pos, pos + 2), pos + 2))
    } else {
        Err(Failure::mismatch(pos))
    }
}

/// Matches `<>` and outputs it.
pub fn empty_start_tag(input: &[char], pos: usize) -> (r: Result<(Span, usize), Failure>)
    requires
        pos <= input@.len(),
    ensures
        span_view(r) == spec_tag(input@, pos as int, seq!['<', '>']),
        span_in_bounds(r, pos, input@.len()),
{
    let tag: [char; 2] = ['<', '>'];
    assert(tag@ == seq!['<', '>']);
    if starts_with_at(input, pos, tag.as_slice()) {
        Ok(((pos, pos + 2), pos + 2))
    } else {
        Err(Failure::mismatch(pos))
    }
}

/// What a recognizer of an end tag yielded, in the terms of
/// specifications.
pub open spec fn optional_span_view(r: Result<(Option<Span>, usize), Failure>) -> Parsed<
    Option<(int, int)>,
> {
    match r {
        Ok((span, rest)) => Ok(
            (
                match span {
                    Some(span) => Some((span.0 as int, span.1 as int)),
                    None => None,
                },
                rest as int,
            ),
        ),
        Err(f) => Err(f@),
    }
}

/// An end tag, from `pos` on: `</`, optionally a name and spaces, and
/// `>`. The value is the name, if there is one. Once `</` was seen, a
/// failure is fatal.
pub open spec fn spec_end_tag(s: Seq<char>, pos: int) -> Parsed<Option<(int, int)>> {
    within(
        if !matches_at(s, pos, seq!['<', '/']) {
            Err(mismatch(pos))
        } else {
            let (name, p) = match name_end(s, pos + 2) {
                Some(e) => (Some((pos + 2, e)), spaces_end(s, e)),
                None => (None, pos + 2),
            };
            if 0 <= p < s.len() && s[p] == '>' {
                Ok((name, p + 1))
            } else {
                Err(expected(p, '>').cut())
            }
        },
        pos,
        Context::EndTag,
    )
}

/// Matches `</foo>` and outputs `foo`.
pub fn end_tag(input: &[char], pos: usize) -> (r: Result<(Option<Span>, usize), Failure>)
    requires
        pos <= input@.len(),
    ensures
        optional_span_view(r) == spec_end_tag(input@, pos as int),
        r matches Ok((name, rest)) ==> pos + 2 < rest <= input@.len() && (name matches Some(span)
            ==> pos < span.0 < span.1 < rest),
{
    let open: [char; 2] = ['<', '/'];
    assert(open@ == seq!['<', '/']);
    if !starts_with_at(input, pos, open.as_slice()) {
        return Err(Failure::mismatch(pos).within(pos, Context::EndTag));
    }
    let (name, p) = match scan_name(input, pos + 2) {
        Some(e) => (Some((pos + 2, e)), spaces(input, e)),
        None => (None, pos + 2),
    };
    if p < input.len() && input[p] == '>' {
        Ok((name, p + 1))
    } else {
        Err(Failure::expected(p, '>').cut().within(pos, Context::EndTag))
    }
}

} // verus!
