//! What the parser reports when it cannot go on.

use vstd::prelude::*;

use crate::chars::char_escape_default;
use crate::chars::find_char_from;
use crate::chars::first_char;
use crate::chars::push_char;
use crate::chars::push_chars;
use crate::chars::push_escape_default;
use crate::chars::substring;
use crate::chars::to_chars;
use crate::error::Error;
use crate::error::ErrorView;
use crate::event::push_text;
use crate::text::digit_char;
use crate::text::spec_digit_char;

verus! {

/// The constructs that the parser names in the trace of an error.
#[derive(Clone, Copy, Debug, PartialEq, Eq)]
pub enum Context {
    CommentDeclaration,
    CommentClose,
    MarkupDeclaration,
    DeclarationSubset,
    MarkedSectionDeclaration,
    MarkedSectionEnd,
    NestedMarkedSectionPair,
    ProcessingInstruction,
    ProcessingInstructionEnd,
    StartTag,
    Attribute,
    AttributeValue,
    ClosingSingleQuote,
    ClosingDoubleQuote,
    EndTag,
    Prolog,
    DocumentContent,
}

impl Context {
    /// The words that name the construct.
    pub open spec fn spec_label(self) -> Seq<char> {
        match self {
            Context::CommentDeclaration => "comment declaration"@,
            Context::CommentClose => "comment declaration close (\"-->\")"@,
            Context::MarkupDeclaration => "markup declaration"@,
            Context::DeclarationSubset => "declaration subset"@,
            Context::MarkedSectionDeclaration => "marked section declaration"@,
            Context::MarkedSectionEnd => "marked section end (\"]]>\")"@,
            Context::NestedMarkedSectionPair => "nested marked section pair"@,
            Context::ProcessingInstruction => "processing instruction"@,
            Context::ProcessingInstructionEnd => "processing instruction end (\">\")"@,
            Context::StartTag => "start tag"@,
            Context::Attribute => "attribute"@,
            Context::AttributeValue => "attribute value"@,
            Context::ClosingSingleQuote => "closing '"@,
            Context::ClosingDoubleQuote => "closing \""@,
            Context::EndTag => "end tag"@,
            Context::Prolog => "prolog"@,
            Context::DocumentContent => "document content"@,
        }
    }

    /// The words that name the construct.
    pub fn label(self) -> (s: &'static str)
        ensures
            s@ == self.spec_label(),
    {
        match self {
            Context::CommentDeclaration => "comment declaration",
            Context::CommentClose => "comment declaration close (\"-->\")",
            Context::MarkupDeclaration => "markup declaration",
            Context::DeclarationSubset => "declaration subset",
            Context::MarkedSectionDeclaration => "marked section declaration",
            Context::MarkedSectionEnd => "marked section end (\"]]>\")",
            Context::NestedMarkedSectionPair => "nested marked section pair",
            Context::ProcessingInstruction => "processing instruction",
            Context::ProcessingInstructionEnd => "processing instruction end (\">\")",
            Context::StartTag => "start tag",
            Context::Attribute => "attribute",
            Context::AttributeValue => "attribute value",
            Context::ClosingSingleQuote => "closing '",
            Context::ClosingDoubleQuote => "closing \"",
            Context::EndTag => "end tag",
            Context::Prolog => "prolog",
            Context::DocumentContent => "document content",
        }
    }
}

/// An error of the parser, with what is needed to describe it.
///
/// Positions count the characters of the source text before them.
#[derive(Clone, Debug, PartialEq, Eq)]
pub struct ContextualizedError {
    /// The position in the source text at which the error occurred.
    pub offset: usize,
    /// Was a certain character expected?
    pub char: Option<char>,
    /// The error of another part of the library that stopped the parser.
    pub error: Option<Error>,
    /// The collected context: the constructs that the parser was in, from
    /// the innermost outwards, each with the position at which it starts.
    pub context: Vec<(usize, Context)>,
}

/// The mathematical value of a [`ContextualizedError`].
pub struct Trace {
    pub offset: int,
    pub expected: Option<char>,
    pub cause: Option<ErrorView>,
    pub context: Seq<(int, Context)>,
}

/// The value of an optional error.
pub open spec fn cause_view(e: Option<Error>) -> Option<ErrorView> {
    match e {
        Some(e) => Some(e@),
        None => None,
    }
}

impl View for ContextualizedError {
    type V = Trace;

    open spec fn view(&self) -> Trace {
        Trace {
            offset: self.offset as int,
            expected: self.char,
            cause: cause_view(self.error),
            context: Seq::new(
                self.context@.len(),
                |i: int| (self.context@[i].0 as int, self.context@[i].1),
            ),
        }
    }
}

/// An unsuccessful attempt of a recognizer. One that is not fatal lets the
/// parser try something else at the same position; a fatal one ends the
/// parse.
#[derive(Clone, Debug, PartialEq, Eq)]
pub struct Failure {
    pub fatal: bool,
    pub error: ContextualizedError,
}

/// The mathematical value of a [`Failure`].
pub struct FailureView {
    pub fatal: bool,
    pub trace: Trace,
}

impl View for Failure {
    type V = FailureView;

    open spec fn view(&self) -> FailureView {
        FailureView { fatal: self.fatal, trace: self.error@ }
    }
}

/// What a recognizer yields in specifications: a value and the position
/// at which the text goes on, or a failure.
pub type Parsed<T> = Result<(T, int), FailureView>;

impl FailureView {
    /// The same failure, made fatal.
    pub open spec fn cut(self) -> FailureView {
        FailureView { fatal: true, trace: self.trace }
    }

    /// The same failure, with the construct `context` that starts at
    /// `offset` added to its trace.
    pub open spec fn within(self, offset: int, context: Context) -> FailureView {
        FailureView {
            fatal: self.fatal,
            trace: Trace {
                offset: self.trace.offset,
                expected: self.trace.expected,
                cause: self.trace.cause,
                context: self.trace.context.push((offset, context)),
            },
        }
    }
}

/// The failure of a recognizer that found, at `offset`, nothing that it
/// could match.
pub open spec fn mismatch(offset: int) -> FailureView {
    FailureView {
        fatal: false,
        trace: Trace { offset, expected: None, cause: None, context: Seq::empty() },
    }
}

/// The failure of a recognizer that found, at `offset`, something else
/// than the character `c`.
pub open spec fn expected(offset: int, c: char) -> FailureView {
    FailureView {
        fatal: false,
        trace: Trace { offset, expected: Some(c), cause: None, context: Seq::empty() },
    }
}

/// The fatal failure that an error of another part of the library causes
/// at `offset`.
pub open spec fn caused(offset: int, cause: ErrorView) -> FailureView {
    FailureView {
        fatal: true,
        trace: Trace { offset, expected: None, cause: Some(cause), context: Seq::empty() },
    }
}

/// The same result, with a failure made fatal.
pub open spec fn cut<T>(r: Parsed<T>) -> Parsed<T> {
    match r {
        Ok(v) => Ok(v),
        Err(f) => Err(f.cut()),
    }
}

/// The same result, with the construct `context` that starts at `offset`
/// added to the trace of a failure.
pub open spec fn within<T>(r: Parsed<T>, offset: int, context: Context) -> Parsed<T> {
    match r {
        Ok(v) => Ok(v),
        Err(f) => Err(f.within(offset, context)),
    }
}

/// Whether the result is a failure that lets the parser try something else.
pub open spec fn recoverable<T>(r: Parsed<T>) -> bool {
    r matches Err(f) && !f.fatal
}

impl Failure {
    /// A failure that is not fatal: nothing matched at `offset`.
    pub fn mismatch(offset: usize) -> (f: Failure)
        ensures
            f@ == mismatch(offset as int),
    {
        let f = Failure {
            fatal: false,
            error: ContextualizedError { offset, char: None, error: None, context: Vec::new() },
        };
        assert(f@.trace.context == Seq::<(int, Context)>::empty());
        f
    }

    /// A failure that is not fatal: the character `c` was expected at
    /// `offset`.
    pub fn expected(offset: usize, c: char) -> (f: Failure)
        ensures
            f@ == expected(offset as int, c),
    {
        let f = Failure {
            fatal: false,
            error: ContextualizedError { offset, char: Some(c), error: None, context: Vec::new() },
        };
        assert(f@.trace.context == Seq::<(int, Context)>::empty());
        f
    }

    /// A fatal failure, caused at `offset` by an error of another part of
    /// the library.
    pub fn caused(offset: usize, cause: Error) -> (f: Failure)
        ensures
            f@ == caused(offset as int, cause@),
    {
        let f = Failure {
            fatal: true,
            error: ContextualizedError {
                offset,
                char: None,
                error: Some(cause),
                context: Vec::new(),
            },
        };
        assert(f@.trace.context == Seq::<(int, Context)>::empty());
        f
    }

    /// The same failure, made fatal.
    pub fn cut(self) -> (f: Failure)
        ensures
            f@ == self@.cut(),
    {
        Failure { fatal: true, error: self.error }
    }

    /// The same failure, with the construct `context` that starts at
    /// `offset` added to its trace.
    pub fn within(self, offset: usize, context: Context) -> (f: Failure)
        ensures
            f@ == self@.within(offset as int, context),
    {
        let mut f = self;
        f.error.context.push((offset, context));
        assert(f@.trace.context == self@.trace.context.push((offset as int, context)));
        f
    }
}

/// The decimal digits that write the number `n`.
pub open spec fn decimal(n: nat) -> Seq<char>
    decreases n,
{
    if n < 10 {
        seq![spec_digit_char(n as u8)]
    } else {
        decimal(n / 10).push(spec_digit_char((n % 10) as u8))
    }
}

/// Appends to `out` the decimal digits that write the number `n`.
pub fn push_decimal(out: &mut String, n: usize)
    ensures
        final(out)@ == old(out)@ + decimal(n as nat),
    decreases n,
{
    if n >= 10 {
        push_decimal(out, n / 10);
    }
    push_char(out, digit_char((n % 10) as u8));
    proof {
        if n >= 10 {
            assert(out@ == old(out)@ + decimal(n as nat));
        } else {
            assert(old(out)@.push(spec_digit_char(n as u8)) == old(out)@ + decimal(n as nat));
        }
    }
}

/// A run of `n` spaces.
pub open spec fn padding(n: int) -> Seq<char> {
    Seq::new(
        if n > 0 {
            n as nat
        } else {
            0
        },
        |i: int| ' ',
    )
}

/// The position of the first character of the line that holds the
/// position `offset`: the position after the last line feed before
/// `offset`, or 0.
pub open spec fn line_start(s: Seq<char>, offset: int) -> int
    decreases offset,
{
    if offset <= 0 || offset > s.len() {
        0
    } else if s[offset - 1] == '\n' {
        offset
    } else {
        line_start(s, offset - 1)
    }
}

/// The number of the line that holds the position `offset`, counted from
/// 1: one more than the number of line feeds before `offset`.
pub open spec fn line_number(s: Seq<char>, offset: int) -> nat
    decreases offset,
{
    if offset <= 0 || offset > s.len() {
        1
    } else {
        line_number(s, offset - 1) + if s[offset - 1] == '\n' {
            1nat
        } else {
            0nat
        }
    }
}

/// The text of the line that starts at `start`, without the line feed
/// that ends it and without the carriage return before that line feed.
pub open spec fn line_text(s: Seq<char>, start: int) -> Seq<char> {
    match first_char(s, start, '\n') {
        Some(end) => if end > start && s[end - 1] == '\r' {
            s.subrange(start, end - 1)
        } else {
            s.subrange(start, end)
        },
        None => if 0 <= start <= s.len() {
            s.subrange(start, s.len() as int)
        } else {
            Seq::empty()
        },
    }
}

/// The number `n`, or the largest machine integer if `n` is larger.
pub open spec fn bounded(n: int) -> nat {
    if n > usize::MAX {
        usize::MAX as nat
    } else if n < 0 {
        0
    } else {
        n as nat
    }
}

/// A position in a text, as shown to a reader.
#[derive(Clone, Debug, Eq, PartialEq)]
pub struct LocatedLine {
    /// The contents of the line, without trailing newline characters.
    pub line: String,
    /// Line number, starting at 1.
    pub line_number: usize,
    /// Column number, starting at 1: the place of the character in its
    /// line.
    pub column_number: usize,
}

/// The mathematical value of a [`LocatedLine`].
pub struct Located {
    pub line: Seq<char>,
    pub line_number: nat,
    pub column_number: nat,
}

impl View for LocatedLine {
    type V = Located;

    open spec fn view(&self) -> Located {
        Located {
            line: self.line@,
            line_number: self.line_number as nat,
            column_number: self.column_number as nat,
        }
    }
}

impl Located {
    /// Where the position `offset` of the text `s` lies; a position after
    /// the end of the text counts as the end. The numbers of the line and
    /// of the column are those that the text gives, up to the largest
    /// machine integer.
    pub open spec fn of(s: Seq<char>, offset: int) -> Located {
        let offset = if offset > s.len() {
            s.len() as int
        } else {
            offset
        };
        let start = line_start(s, offset);
        Located {
            line: line_text(s, start),
            line_number: bounded(line_number(s, offset) as int),
            column_number: bounded(offset - start + 1),
        }
    }

    /// Whether two positions of one text are the same.
    pub open spec fn same(self, other: Located) -> bool {
        self.line_number == other.line_number && self.column_number == other.column_number
    }

    /// The number of characters of the line that are left out before the
    /// column, so that the column is shown at most 40 characters into the
    /// excerpt.
    pub open spec fn skipped(self) -> nat {
        if self.column_number > 40 {
            (self.column_number - 40) as nat
        } else {
            0
        }
    }

    /// Whether the line can be displayed: the column lies at most 36
    /// characters after the end of the line.
    pub open spec fn displayable(self) -> bool {
        self.skipped() > 0 ==> self.skipped() + 4 <= self.line.len()
    }

    /// The excerpt of the line and, under it, a caret that points at the
    /// column.
    ///
    /// The excerpt has at most 80 characters. Where the column lies more
    /// than 40 characters into the line, the start of the line is left out
    /// and shown as `...`; where the rest is still too long, its end is
    /// left out and shown as `...` too.
    pub open spec fn display(self) -> Seq<char> {
        let skip = self.skipped();
        let start = if skip > 0 {
            skip + 3
        } else {
            0
        };
        let end = if self.line.len() >= skip + 81 {
            skip + 77
        } else {
            self.line.len()
        };
        (if start > 0 {
            "..."@
        } else {
            Seq::empty()
        }) + self.line.subrange(start as int, end as int) + (if end < self.line.len() {
            "..."@
        } else {
            Seq::empty()
        }) + "\n"@ + padding(self.column_number - skip - 1) + "^"@
    }
}

impl LocatedLine {
    /// Locates the position `offset` in the text `input`.
    pub fn locate(input: &[char], offset: usize) -> (r: LocatedLine)
        ensures
            r@ == Located::of(input@, offset as int),
            r@.displayable(),
    {
        let offset: usize = if offset > input.len() {
            input.len()
        } else {
            offset
        };
        let mut start: usize = offset;
        while start > 0 && input[start - 1] != '\n'
            invariant
                start <= offset <= input@.len(),
                line_start(input@, offset as int) == line_start(input@, start as int),
                forall|i: int| start <= i < offset ==> input@[i] != '\n',
            decreases start,
        {
            start -= 1;
        }
        let mut number: usize = 1;
        let mut i: usize = 0;
        while i < offset
            invariant
                i <= offset <= input@.len(),
                number == bounded(line_number(input@, i as int) as int),
            decreases offset - i,
        {
            if input[i] == '\n' && number < usize::MAX {
                number += 1;
            }
            i += 1;
        }
        let line = match find_char_from(input, start, '\n') {
            Some(end) => {
                proof {
                    lemma_first_char_after(input@, start as int, offset as int);
                }
                if end > start && input[end - 1] == '\r' {
                    substring(input, start, end - 1)
                } else {
                    substring(input, start, end)
                }
            },
            None => substring(input, start, input.len()),
        };
        proof {
            lemma_first_char_after(input@, start as int, offset as int);
        }
        let column: usize = if offset - start < usize::MAX {
            offset - start + 1
        } else {
            usize::MAX
        };
        LocatedLine { line, line_number: number, column_number: column }
    }

    /// The excerpt of the line and the caret that points at the column.
    pub fn to_string(&self) -> (s: String)
        requires
            self@.displayable(),
        ensures
            s@ == self@.display(),
    {
        let mut s = String::new();
        self.write_to(&mut s);
        s
    }

    /// Appends to `out` the excerpt of the line and the caret that points
    /// at the column.
    pub fn write_to(&self, out: &mut String)
        requires
            self@.displayable(),
        ensures
            final(out)@ == old(out)@ + self@.display(),
    {
        let line = to_chars(self.line.as_str());
        let skip: usize = if self.column_number > 40 {
            self.column_number - 40
        } else {
            0
        };
        let start: usize = if skip > 0 {
            skip + 3
        } else {
            0
        };
        let end: usize = if line.len() >= 81 && line.len() - 81 >= skip {
            skip + 77
        } else {
            line.len()
        };
        if start > 0 {
            push_text(out, "...");
        }
        push_chars(out, line.as_slice(), start, end);
        if end < line.len() {
            push_text(out, "...");
        }
        push_text(out, "\n");
        let ghost before = out@;
        let width: usize = self.column_number - skip;
        let mut k: usize = 1;
        assert(padding(0) == Seq::<char>::empty());
        while k < width
            invariant
                1 <= k,
                k <= width || width == 0,
                width == 0 ==> k == 1,
                out@ == before + padding(k - 1),
            decreases width - k,
        {
            push_char(out, ' ');
            assert(padding(k as int) == padding(k - 1).push(' '));
            k += 1;
        }
        assert(out@ == before + padding(width - 1)) by {
            if width == 0 {
                assert(padding(-1) == padding(0));
            }
        }
        push_text(out, "^");
        proof {
            let head = (if start > 0 {
                "..."@
            } else {
                Seq::empty()
            }) + line@.subrange(start as int, end as int) + (if end < line@.len() {
                "..."@
            } else {
                Seq::empty()
            }) + "\n"@;
            assert(before == old(out)@ + head);
            assert(out@ == old(out)@ + (head + padding(width - 1) + "^"@));
        }
    }
}

/// The first line feed at or after the start of a line is the first at
/// or after any position of the line, and the positions of a line are not
/// separated by a line feed.
pub proof fn lemma_first_char_after(s: Seq<char>, start: int, offset: int)
    requires
        0 <= start <= offset <= s.len(),
        forall|i: int| start <= i < offset ==> s[i] != '\n',
    ensures
        first_char(s, start, '\n') == first_char(s, offset, '\n'),
        first_char(s, start, '\n') matches Some(end) ==> offset <= end,
    decreases offset - start,
{
    if start < offset {
        lemma_first_char_after(s, start + 1, offset);
    } else {
        lemma_first_char_bounds(s, offset, '\n');
    }
}

/// Where the first occurrence of a character is found, it lies at or
/// after the position from which it was looked for.
pub proof fn lemma_first_char_bounds(s: Seq<char>, pos: int, c: char)
    requires
        0 <= pos,
    ensures
        first_char(s, pos, c) matches Some(i) ==> pos <= i < s.len() && s[i] == c,
    decreases s.len() - pos,
{
    if pos < s.len() && s[pos] != c {
        lemma_first_char_bounds(s, pos + 1, c);
    }
}

/// What stands at the position `offset` of the text, in the words of an
/// error message.
pub open spec fn found_at(s: Seq<char>, offset: int) -> Seq<char> {
    if 0 <= offset < s.len() {
        let c = s[offset];
        if c == ' ' || c == '\t' {
            "whitespace"@
        } else if c == '\r' || c == '\n' {
            "end of line"@
        } else {
            "'"@ + char_escape_default(c) + "'"@
        }
    } else {
        "end of input"@
    }
}

/// One entry of the description for a construct in which the parser
/// was: its name, the line at which it starts, and that line with a caret
/// under the start; `last` is what the entry before it points at.
pub open spec fn context_entry(context: Context, location: Located, last: Located) -> Seq<char> {
    "From "@ + context.spec_label() + ", started at "@ + (if location.line_number
        == last.line_number {
        "the same "@
    } else {
        Seq::empty()
    }) + "line "@ + decimal(location.line_number) + ":\n"@ + location.display() + "\n"@
}

/// The lines of the description that tell in which constructs the parser
/// was: one entry for each construct of `context` from the index `from`
/// on, but for those that start where the entry before them, `last`,
/// points.
pub open spec fn context_lines(
    s: Seq<char>,
    context: Seq<(int, Context)>,
    from: int,
    last: Located,
) -> Seq<char>
    decreases context.len() - from,
{
    if from < 0 || from >= context.len() {
        Seq::empty()
    } else {
        let location = Located::of(s, context[from].0);
        if location.same(last) {
            context_lines(s, context, from + 1, last)
        } else {
            context_entry(context[from].1, location, last) + context_lines(
                s,
                context,
                from + 1,
                location,
            )
        }
    }
}

/// Whether the innermost construct of the trace starts at the very
/// position of the error.
pub open spec fn starts_at_error(t: Trace, s: Seq<char>) -> bool {
    t.context.len() > 0 && Located::of(s, t.context[0].0).same(Located::of(s, t.offset))
}

/// The words of the description that tell where the error is.
pub open spec fn place(t: Trace, s: Seq<char>) -> Seq<char> {
    "parse error "@ + (if starts_at_error(t, s) {
        "in "@ + t.context[0].1.spec_label() + ", "@
    } else {
        Seq::empty()
    }) + "at line "@ + decimal(Located::of(s, t.offset).line_number) + ":"@
}

/// The words of the description that tell what went wrong: the message of
/// the error that stopped the parser, and which character was expected
/// and what was found.
pub open spec fn reason(t: Trace, s: Seq<char>) -> Seq<char> {
    (match t.cause {
        Some(e) => " "@ + Error::message(e),
        None => Seq::empty(),
    }) + (match t.expected {
        Some(c) => " expected '"@ + seq![c] + "', got "@ + found_at(s, t.offset),
        None => Seq::empty(),
    })
}

/// The description of an error of the parser in the text `s`.
///
/// It tells the line of the error; the construct that starts at the very
/// position of the error, if the innermost one does; what caused the
/// error or which character was expected and what was found; shows the
/// line with a caret under the position; and goes on with the constructs
/// in which the parser was.
pub open spec fn description(t: Trace, s: Seq<char>) -> Seq<char> {
    if s.len() == 0 {
        "parse error: input is empty"@
    } else {
        place(t, s) + reason(t, s) + "\n"@ + Located::of(s, t.offset).display() + "\n"@
            + context_lines(
            s,
            t.context,
            if starts_at_error(t, s) {
                1
            } else {
                0
            },
            Located::of(s, t.offset),
        )
    }
}

/// Appends to `out` what stands at the position `offset` of the text, in
/// the words of an error message.
fn write_found(input: &[char], offset: usize, out: &mut String)
    ensures
        final(out)@ == old(out)@ + found_at(input@, offset as int),
{
    if offset < input.len() {
        let found = input[offset];
        if found == ' ' || found == '\t' {
            push_text(out, "whitespace");
        } else if found == '\r' || found == '\n' {
            push_text(out, "end of line");
        } else {
            push_text(out, "'");
            push_escape_default(out, found);
            push_text(out, "'");
            assert(out@ == old(out)@ + ("'"@ + char_escape_default(found) + "'"@));
        }
    } else {
        push_text(out, "end of input");
    }
}

/// Appends to `out` one entry of the description for a construct in which
/// the parser was.
fn write_context_entry(context: Context, location: &LocatedLine, last_line: usize, out: &mut String)
    requires
        location@.displayable(),
    ensures
        forall|last: Located|
            last.line_number == last_line ==> final(out)@ == old(out)@ + #[trigger] context_entry(
                context,
                location@,
                last,
            ),
{
    push_text(out, "From ");
    push_text(out, context.label());
    push_text(out, ", started at ");
    let ghost a = out@;
    assert(a == old(out)@ + ("From "@ + context.spec_label() + ", started at "@));
    if location.line_number == last_line {
        push_text(out, "the same ");
    }
    push_text(out, "line ");
    push_decimal(out, location.line_number);
    push_text(out, ":\n");
    let ghost same = if location.line_number == last_line {
        "the same "@
    } else {
        Seq::empty()
    };
    let ghost b = out@;
    assert(b == a + (same + "line "@ + decimal(location@.line_number) + ":\n"@));
    location.write_to(out);
    push_text(out, "\n");
    assert(out@ == b + (location@.display() + "\n"@));
    assert(out@ == old(out)@ + ("From "@ + context.spec_label() + ", started at "@ + same
        + "line "@ + decimal(location@.line_number) + ":\n"@ + location@.display() + "\n"@));
}

impl ContextualizedError {
    /// Returns a string describing this error.
    pub fn describe(&self, input: &str) -> (s: String)
        ensures
            s@ == description(self@, input@),
    {
        let chars = to_chars(input);
        let mut out = String::new();
        self.describe_to(chars.as_slice(), &mut out);
        out
    }

    /// Appends to `out` the words that tell where the error is.
    fn write_place(&self, input: &[char], location: &LocatedLine, inner: bool, out: &mut String)
        requires
            location@ == Located::of(input@, self@.offset),
            inner == starts_at_error(self@, input@),
        ensures
            final(out)@ == old(out)@ + place(self@, input@),
    {
        push_text(out, "parse error ");
        if inner {
            push_text(out, "in ");
            push_text(out, self.context[0].1.label());
            push_text(out, ", ");
        }
        let ghost head = "parse error "@ + (if inner {
            "in "@ + self@.context[0].1.spec_label() + ", "@
        } else {
            Seq::empty()
        });
        assert(out@ == old(out)@ + head);
        push_text(out, "at line ");
        push_decimal(out, location.line_number);
        push_text(out, ":");
        assert(out@ == old(out)@ + (head + "at line "@ + decimal(location@.line_number) + ":"@));
    }

    /// Appends to `out` the words that tell what went wrong.
    fn write_reason(&self, input: &[char], out: &mut String)
        ensures
            final(out)@ == old(out)@ + reason(self@, input@),
    {
        match &self.error {
            Some(e) => {
                push_text(out, " ");
                e.write_to(out);
            },
            None => {},
        }
        let ghost cause = match self@.cause {
            Some(e) => " "@ + Error::message(e),
            None => Seq::empty(),
        };
        assert(out@ == old(out)@ + cause);
        let ghost a = out@;
        match self.char {
            Some(c) => {
                push_text(out, " expected '");
                push_char(out, c);
                push_text(out, "', got ");
                assert(out@ == a + (" expected '"@ + seq![c] + "', got "@));
                write_found(input, self.offset, out);
                assert(out@ == a + (" expected '"@ + seq![c] + "', got "@ + found_at(
                    input@,
                    self@.offset,
                )));
            },
            None => {},
        }
        let ghost expectation = match self@.expected {
            Some(c) => " expected '"@ + seq![c] + "', got "@ + found_at(input@, self@.offset),
            None => Seq::empty(),
        };
        assert(out@ == a + expectation);
        assert(out@ == old(out)@ + (cause + expectation));
    }

    /// Appends to `out` the entries of the description for the constructs
    /// in which the parser was, from the index `first` of the trace on.
    fn write_context_lines(
        &self,
        input: &[char],
        first: usize,
        location: &LocatedLine,
        out: &mut String,
    )
        ensures
            final(out)@ == old(out)@ + context_lines(
                input@,
                self@.context,
                first as int,
                location@,
            ),
    {
        let ghost s = input@;
        let ghost t = self@;
        let mut last_line: usize = location.line_number;
        let mut last_column: usize = location.column_number;
        let ghost mut last = location@;
        let mut i: usize = first;
        let ghost mut lines: Seq<char> = Seq::empty();
        assert(out@ == old(out)@ + lines);
        assert(lines + context_lines(s, t.context, i as int, last) == context_lines(
            s,
            t.context,
            first as int,
            location@,
        ));
        while i < self.context.len()
            invariant
                first <= i,
                s == input@,
                t == self@,
                last.line_number == last_line,
                last.column_number == last_column,
                out@ == old(out)@ + lines,
                lines + context_lines(s, t.context, i as int, last) == context_lines(
                    s,
                    t.context,
                    first as int,
                    location@,
                ),
            decreases self.context@.len() - i,
        {
            let (offset, context) = self.context[i];
            let found = LocatedLine::locate(input, offset);
            assert(t.context[i as int] == (offset as int, context));
            if found.line_number == last_line && found.column_number == last_column {
                // Avoid pointing multiple times to the same location
            } else {
                write_context_entry(context, &found, last_line, out);
                proof {
                    let entry = context_entry(context, found@, last);
                    let rest = context_lines(s, t.context, i + 1, found@);
                    assert(context_lines(s, t.context, i as int, last) == entry + rest);
                    assert((lines + entry) + rest == lines + (entry + rest));
                    assert(out@ == old(out)@ + (lines + entry));
                    lines = lines + entry;
                    last = found@;
                }
                last_line = found.line_number;
                last_column = found.column_number;
            }
            i += 1;
        }
        proof {
            assert(lines + Seq::<char>::empty() == lines);
        }
    }

    /// Writes the detailed description of this error to the given output.
    pub fn describe_to(&self, input: &[char], out: &mut String)
        ensures
            final(out)@ == old(out)@ + description(self@, input@),
    {
        if input.len() == 0 {
            push_text(out, "parse error: input is empty");
            return ;
        }
        let location = LocatedLine::locate(input, self.offset);
        let inner = self.context.len() > 0 && {
            let first = LocatedLine::locate(input, self.context[0].0);
            first.line_number == location.line_number && first.column_number
                == location.column_number
        };
        self.write_place(input, &location, inner, out);
        self.write_reason(input, out);
        push_text(out, "\n");
        location.write_to(out);
        push_text(out, "\n");
        let ghost head = place(self@, input@) + reason(self@, input@) + "\n"@
            + location@.display() + "\n"@;
        assert(out@ == old(out)@ + head);
        let first: usize = if inner {
            1
        } else {
            0
        };
        self.write_context_lines(input, first, &location, out);
        assert(out@ == old(out)@ + (head + context_lines(
            input@,
            self@.context,
            first as int,
            location@,
        )));
    }
}

} // verus!
