//! Deserialize SGML data to a data structure.

pub mod buffer;
pub mod integer;
pub mod structure;

use vstd::prelude::*;

use crate::chars::push_debug_str;
use crate::chars::str_debug;
use crate::chars::to_chars;
use crate::event::display_event;
use crate::marked_sections::eq_ignore_ascii_case;
use crate::marked_sections::spec_eq_ignore_ascii_case;
use crate::event::push_text;
use crate::event::views;
use crate::event::EventView;
use crate::event::SgmlEvent;
use crate::fragment::SgmlFragment;

verus! {

/// The error type for deserialization problems.
#[derive(Clone, Debug, Eq, PartialEq)]
pub enum DeserializationError {
    /// The events ended where more were expected.
    UnexpectedEof,
    /// An element was to be closed where none is open.
    EmptyStack,
    /// A start tag was expected.
    ExpectedStartTag,
    /// An end tag does not close the element that is open.
    MismatchedCloseTag { expected: String, found: String },
    /// An event which is not supported by deserialization was found.
    Unsupported(SgmlEvent),
    /// A text does not write an integer of the type that is asked for; the
    /// error holds the reason.
    ParseIntError(String),
    /// A text does not write a floating-point number; the error holds the
    /// reason.
    ParseFloatError(String),
    /// Any other error, with its message.
    Message(String),
}

impl DeserializationError {
    /// The message of the error.
    pub open spec fn message(self) -> Seq<char> {
        match self {
            DeserializationError::UnexpectedEof => "unexpected end of content"@,
            DeserializationError::EmptyStack => "empty stack"@,
            DeserializationError::ExpectedStartTag => "expected start tag"@,
            DeserializationError::MismatchedCloseTag { expected, found } =>
                "mismatched close tag: expected </"@ + expected@ + ">, found </"@ + found@ + ">"@,
            DeserializationError::Unsupported(event) => "deserialization of '"@ + display_event(
                event@,
            ) + "' is not supported"@,
            DeserializationError::ParseIntError(reason) => "error parsing integer value: "@
                + reason@,
            DeserializationError::ParseFloatError(reason) => "error parsing float value: "@
                + reason@,
            DeserializationError::Message(message) => message@,
        }
    }

    /// The message of the error.
    pub fn to_string(&self) -> (s: String)
        ensures
            s@ == self.message(),
    {
        let mut s = String::new();
        match self {
            DeserializationError::UnexpectedEof => {
                push_text(&mut s, "unexpected end of content");
            },
            DeserializationError::EmptyStack => {
                push_text(&mut s, "empty stack");
            },
            DeserializationError::ExpectedStartTag => {
                push_text(&mut s, "expected start tag");
            },
            DeserializationError::MismatchedCloseTag { expected, found } => {
                push_text(&mut s, "mismatched close tag: expected </");
                push_text(&mut s, expected.as_str());
                push_text(&mut s, ">, found </");
                push_text(&mut s, found.as_str());
                push_text(&mut s, ">");
            },
            DeserializationError::Unsupported(event) => {
                push_text(&mut s, "deserialization of '");
                event.write_to(&mut s);
                push_text(&mut s, "' is not supported");
            },
            DeserializationError::ParseIntError(reason) => {
                push_text(&mut s, "error parsing integer value: ");
                push_text(&mut s, reason.as_str());
            },
            DeserializationError::ParseFloatError(reason) => {
                push_text(&mut s, "error parsing float value: ");
                push_text(&mut s, reason.as_str());
            },
            DeserializationError::Message(message) => {
                push_text(&mut s, message.as_str());
            },
        }
        s
    }
}

/// The mathematical value of a [`DeserializationError`].
pub enum DeserializationErrorView {
    UnexpectedEof,
    EmptyStack,
    ExpectedStartTag,
    MismatchedCloseTag { expected: Seq<char>, found: Seq<char> },
    Unsupported(EventView),
    ParseIntError(Seq<char>),
    ParseFloatError(Seq<char>),
    Message(Seq<char>),
}

impl View for DeserializationError {
    type V = DeserializationErrorView;

    open spec fn view(&self) -> DeserializationErrorView {
        match *self {
            DeserializationError::UnexpectedEof => DeserializationErrorView::UnexpectedEof,
            DeserializationError::EmptyStack => DeserializationErrorView::EmptyStack,
            DeserializationError::ExpectedStartTag => DeserializationErrorView::ExpectedStartTag,
            DeserializationError::MismatchedCloseTag { expected, found } =>
                DeserializationErrorView::MismatchedCloseTag {
                    expected: expected@,
                    found: found@,
                },
            DeserializationError::Unsupported(event) => DeserializationErrorView::Unsupported(
                event@,
            ),
            DeserializationError::ParseIntError(reason) => DeserializationErrorView::ParseIntError(
                reason@,
            ),
            DeserializationError::ParseFloatError(reason) =>
                DeserializationErrorView::ParseFloatError(reason@),
            DeserializationError::Message(message) => DeserializationErrorView::Message(message@),
        }
    }
}

/// A deserializer for SGML content: a cursor over the events of a
/// fragment.
#[derive(Clone, Debug)]
pub struct SgmlDeserializer {
    /// The events of the fragment.
    pub events: Vec<SgmlEvent>,
    /// The position of the event at the cursor.
    pub cursor: usize,
    /// The names of the elements that are open: the path from the root to
    /// the current element.
    pub stack: Vec<String>,
    /// The name of the tag that is expected next, where a sequence is
    /// assembled from repeated elements of the same name.
    pub map_key: Option<String>,
    /// The text content of the current element, where a struct captures
    /// it under the field name `$value`.
    pub accumulated_text: Option<String>,
}

/// The mathematical value of an [`SgmlDeserializer`].
pub struct Cursor {
    pub events: Seq<EventView>,
    pub cursor: int,
    pub stack: Seq<Seq<char>>,
    pub map_key: Option<Seq<char>>,
    pub accumulated_text: Option<Seq<char>>,
}

/// The names of strings, as sequences of characters.
pub open spec fn names(stack: Seq<String>) -> Seq<Seq<char>> {
    Seq::new(stack.len(), |i: int| stack[i]@)
}

impl View for SgmlDeserializer {
    type V = Cursor;

    open spec fn view(&self) -> Cursor {
        Cursor {
            events: views(self.events@),
            cursor: self.cursor as int,
            stack: names(self.stack@),
            map_key: crate::event::option_view(self.map_key),
            accumulated_text: crate::event::option_view(self.accumulated_text),
        }
    }
}

/// What an operation of the deserializer does: the state that it leaves
/// and what it returns.
pub type Outcome<T> = (Cursor, Result<T, DeserializationErrorView>);

/// What an operation returned, in the terms of specifications.
pub open spec fn unit_view(r: Result<(), DeserializationError>) -> Result<
    (),
    DeserializationErrorView,
> {
    match r {
        Ok(()) => Ok(()),
        Err(e) => Err(e@),
    }
}

/// What an operation that yields a text returned, in the terms of
/// specifications.
pub open spec fn text_view(r: Result<String, DeserializationError>) -> Result<
    Seq<char>,
    DeserializationErrorView,
> {
    match r {
        Ok(text) => Ok(text@),
        Err(e) => Err(e@),
    }
}

/// What an operation that yields an event returned, in the terms of
/// specifications.
pub open spec fn event_view(r: Result<SgmlEvent, DeserializationError>) -> Result<
    EventView,
    DeserializationErrorView,
> {
    match r {
        Ok(event) => Ok(event@),
        Err(e) => Err(e@),
    }
}

/// What kind of content an element has.
#[derive(Clone, Copy, Debug, PartialEq, Eq)]
pub struct PeekContentType {
    /// Whether a non-empty text stands before the first tag in the
    /// element.
    pub contains_text: bool,
    /// Whether the first tag in the element is a start tag.
    pub contains_child_elements: bool,
}

/// Whether deserialization does not support the event: markup
/// declarations, processing instructions and marked sections, and empty
/// start and end tags.
pub open spec fn unsupported(e: EventView) -> bool {
    match e {
        EventView::MarkupDeclaration { .. } => true,
        EventView::ProcessingInstruction(_) => true,
        EventView::MarkedSection { .. } => true,
        EventView::OpenStartTag { name } => name.len() == 0,
        EventView::EndTag { name } => name.len() == 0,
        _ => false,
    }
}

impl Cursor {
    /// The same state with the cursor at `cursor`.
    pub open spec fn at(self, cursor: int) -> Cursor {
        Cursor { cursor, ..self }
    }

    /// The same state with the open elements `stack`.
    pub open spec fn with_stack(self, stack: Seq<Seq<char>>) -> Cursor {
        Cursor { stack, ..self }
    }

    /// Whether there is an event at the cursor.
    pub open spec fn has_event(self) -> bool {
        0 <= self.cursor < self.events.len()
    }

    /// The event at the cursor.
    pub open spec fn current(self) -> EventView
        recommends
            self.has_event(),
    {
        self.events[self.cursor]
    }

    /// The event at the cursor is looked at: an event that is not
    /// supported is consumed and reported.
    pub open spec fn normalize(self) -> Outcome<()> {
        if self.has_event() && unsupported(self.current()) {
            (self.at(self.cursor + 1), Err(DeserializationErrorView::Unsupported(self.current())))
        } else {
            (self, Ok(()))
        }
    }

    /// The event at the cursor is consumed and returned, and the event
    /// after it is checked.
    pub open spec fn advance(self) -> Outcome<EventView> {
        if self.has_event() {
            let (next, checked) = self.at(self.cursor + 1).normalize();
            match checked {
                Ok(()) => (next, Ok(self.current())),
                Err(e) => (next, Err(e)),
            }
        } else {
            (self, Err(DeserializationErrorView::UnexpectedEof))
        }
    }

    /// The kind of content of the element whose start tag is at the
    /// cursor, from the position `i` on: whether a start tag comes before
    /// the first end tag, and whether `text` holds or a non-empty text
    /// comes before the first tag.
    pub open spec fn content_type_from(self, i: int, text: bool) -> Result<
        PeekContentType,
        DeserializationErrorView,
    >
        decreases self.events.len() - i,
    {
        if i < 0 || i >= self.events.len() {
            Err(DeserializationErrorView::UnexpectedEof)
        } else {
            match self.events[i] {
                EventView::OpenStartTag { .. } => Ok(
                    PeekContentType { contains_text: text, contains_child_elements: true },
                ),
                EventView::EndTag { .. } => Ok(
                    PeekContentType { contains_text: text, contains_child_elements: false },
                ),
                EventView::Character(t) => self.content_type_from(i + 1, text || t.len() > 0),
                _ => self.content_type_from(i + 1, text),
            }
        }
    }

    /// The event at the cursor, which must be the opening of a start tag,
    /// is consumed, and its element is open from now on; the event after
    /// it is checked. Any other event is consumed too.
    pub open spec fn push_elt(self) -> Outcome<()> {
        if self.has_event() {
            match self.current() {
                EventView::OpenStartTag { name } => self.at(self.cursor + 1).with_stack(
                    self.stack.push(name),
                ).normalize(),
                _ => (self.at(self.cursor + 1), Err(DeserializationErrorView::ExpectedStartTag)),
            }
        } else {
            (self, Err(DeserializationErrorView::ExpectedStartTag))
        }
    }

    /// The events from the cursor on are consumed until fewer than `depth`
    /// elements are open: a start tag opens an element, an end tag closes
    /// the innermost open element, whose name it must have, and the
    /// closing of an XML empty element closes the innermost open element.
    pub open spec fn close_until(self, depth: int) -> Outcome<()>
        decreases self.events.len() - self.cursor,
    {
        if !self.has_event() {
            (self, Err(DeserializationErrorView::UnexpectedEof))
        } else {
            let next = self.at(self.cursor + 1);
            match self.current() {
                EventView::XmlCloseEmptyElement => {
                    let closed = if self.stack.len() > 0 {
                        next.with_stack(self.stack.drop_last())
                    } else {
                        next
                    };
                    if closed.stack.len() < depth {
                        (closed, Ok(()))
                    } else {
                        closed.close_until(depth)
                    }
                },
                EventView::EndTag { name } => {
                    let closed = next.with_stack(self.stack.drop_last());
                    if self.stack.len() == 0 {
                        (next, Err(DeserializationErrorView::EmptyStack))
                    } else if name != self.stack.last() {
                        (
                            closed,
                            Err(
                                DeserializationErrorView::MismatchedCloseTag {
                                    expected: self.stack.last(),
                                    found: name,
                                },
                            ),
                        )
                    } else if closed.stack.len() < depth {
                        (closed, Ok(()))
                    } else {
                        closed.close_until(depth)
                    }
                },
                EventView::OpenStartTag { name } => next.with_stack(
                    self.stack.push(name),
                ).close_until(depth),
                _ => next.close_until(depth),
            }
        }
    }

    /// All events are consumed until the innermost open element is
    /// closed. It is an error if no element is open.
    pub open spec fn pop_elt(self) -> Outcome<()> {
        if self.stack.len() == 0 {
            (self, Err(DeserializationErrorView::EmptyStack))
        } else {
            self.close_until(self.stack.len() as int)
        }
    }

    /// The attributes and the closing of the start tag at the cursor are
    /// consumed.
    pub open spec fn advance_to_content(self) -> Outcome<()>
        decreases self.events.len() - self.cursor,
    {
        if !self.has_event() {
            (self, Err(DeserializationErrorView::UnexpectedEof))
        } else if self.current() is Attribute || self.current() is CloseStartTag {
            let (next, advanced) = self.advance();
            match advanced {
                Ok(_) => if self.cursor < next.cursor <= self.events.len() && next.events
                    == self.events {
                    next.advance_to_content()
                } else {
                    (next, Ok(()))
                },
                Err(e) => (next, Err(e)),
            }
        } else {
            (self, Ok(()))
        }
    }
}

impl SgmlDeserializer {
    /// A deserializer for the events of the fragment. It is an error if
    /// the first event is not supported.
    pub fn from_fragment(fragment: SgmlFragment) -> (r: Result<
        SgmlDeserializer,
        DeserializationError,
    >)
        ensures
            ({
                let start = Cursor {
                    events: fragment@,
                    cursor: 0,
                    stack: Seq::empty(),
                    map_key: None,
                    accumulated_text: None,
                };
                match r {
                    Ok(reader) => start.normalize() == (reader@, Ok::<(), DeserializationErrorView>(())),
                    Err(e) => start.normalize().1 == Err::<(), _>(e@),
                }
            }),
    {
        let mut reader = SgmlDeserializer {
            events: fragment.events,
            cursor: 0,
            stack: Vec::new(),
            map_key: None,
            accumulated_text: None,
        };
        assert(reader@.stack =~= Seq::<Seq<char>>::empty());
        match reader.normalize_at_cursor() {
            Ok(()) => Ok(reader),
            Err(e) => Err(e),
        }
    }

    /// Whether the event at the cursor is not supported.
    fn unsupported_at_cursor(&self) -> (r: bool)
        ensures
            r == (self@.has_event() && unsupported(self@.current())),
    {
        if self.cursor < self.events.len() {
            match &self.events[self.cursor] {
                SgmlEvent::MarkupDeclaration { .. } => true,
                SgmlEvent::ProcessingInstruction(_) => true,
                SgmlEvent::MarkedSection { .. } => true,
                SgmlEvent::OpenStartTag { name } => name.as_str().unicode_len() == 0,
                SgmlEvent::EndTag { name } => name.as_str().unicode_len() == 0,
                _ => false,
            }
        } else {
            false
        }
    }

    /// Rejects unsupported events (like empty start tags, markup
    /// declarations and processing instructions).
    pub fn normalize_at_cursor(&mut self) -> (r: Result<(), DeserializationError>)
        ensures
            (final(self)@, unit_view(r)) == old(self)@.normalize(),
    {
        let len = self.events.len();
        if self.unsupported_at_cursor() {
            let event = self.events[self.cursor].duplicate();
            self.cursor += 1;
            Err(DeserializationError::Unsupported(event.into_owned()))
        } else {
            Ok(())
        }
    }

    /// Consumes the event at the cursor and returns it.
    pub fn advance(&mut self) -> (r: Result<SgmlEvent, DeserializationError>)
        ensures
            (final(self)@, event_view(r)) == old(self)@.advance(),
    {
        if self.cursor < self.events.len() {
            let next = self.events[self.cursor].duplicate();
            self.cursor += 1;
            match self.normalize_at_cursor() {
                Ok(()) => Ok(next),
                Err(e) => Err(e),
            }
        } else {
            Err(DeserializationError::UnexpectedEof)
        }
    }

    /// The event at the cursor.
    pub fn peek(&self) -> (r: Result<&SgmlEvent, DeserializationError>)
        ensures
            match r {
                Ok(event) => self@.has_event() && *event == self.events@[self.cursor as int],
                Err(e) => !self@.has_event() && e == DeserializationError::UnexpectedEof,
            },
    {
        if self.cursor < self.events.len() {
            Ok(&self.events[self.cursor])
        } else {
            Err(DeserializationError::UnexpectedEof)
        }
    }

    /// Tells what kind of content the element has whose start tag is at
    /// the cursor.
    pub fn peek_content_type(&self) -> (r: Result<PeekContentType, DeserializationError>)
        ensures
            match r {
                Ok(content) => self@.content_type_from(self@.cursor + 1, false) == Ok::<
                    _,
                    DeserializationErrorView,
                >(content),
                Err(e) => self@.content_type_from(self@.cursor + 1, false) == Err::<
                    PeekContentType,
                    _,
                >(e@),
            },
    {
        if self.cursor >= self.events.len() {
            return Err(DeserializationError::UnexpectedEof);
        }
        let mut contains_text = false;
        let mut i: usize = self.cursor + 1;
        while i < self.events.len()
            invariant
                self.cursor < i,
                self@.content_type_from(self@.cursor + 1, false) == self@.content_type_from(
                    i as int,
                    contains_text,
                ),
            decreases self.events@.len() - i,
        {
            match &self.events[i] {
                SgmlEvent::OpenStartTag { .. } => {
                    return Ok(PeekContentType { contains_text, contains_child_elements: true });
                },
                SgmlEvent::EndTag { .. } => {
                    return Ok(PeekContentType { contains_text, contains_child_elements: false });
                },
                SgmlEvent::Character(text) => {
                    if text.as_str().unicode_len() > 0 {
                        contains_text = true;
                    }
                },
                _ => {},
            }
            i += 1;
        }
        Err(DeserializationError::UnexpectedEof)
    }

    /// The name of the start tag at the cursor.
    pub fn expect_start_tag(&self) -> (r: Result<&String, DeserializationError>)
        ensures
            match r {
                Ok(name) => self@.has_event() && self@.current() == (EventView::OpenStartTag {
                    name: name@,
                }),
                Err(e) => e == DeserializationError::ExpectedStartTag && !(self@.has_event()
                    && self@.current() is OpenStartTag),
            },
    {
        if self.cursor < self.events.len() {
            match &self.events[self.cursor] {
                SgmlEvent::OpenStartTag { name } => Ok(name),
                _ => Err(DeserializationError::ExpectedStartTag),
            }
        } else {
            Err(DeserializationError::ExpectedStartTag)
        }
    }

    /// Consumes the current event, asserting it is an open tag, and pushes it to the stack.
    pub fn push_elt(&mut self) -> (r: Result<(), DeserializationError>)
        ensures
            (final(self)@, unit_view(r)) == old(self)@.push_elt(),
    {
        if self.cursor >= self.events.len() {
            return Err(DeserializationError::ExpectedStartTag);
        }
        let name = match &self.events[self.cursor] {
            SgmlEvent::OpenStartTag { name } => Some(name.clone()),
            _ => None,
        };
        self.cursor += 1;
        match name {
            Some(name) => {
                self.stack.push(name);
                assert(self@.stack =~= old(self)@.stack.push(name@));
                self.normalize_at_cursor()
            },
            None => Err(DeserializationError::ExpectedStartTag),
        }
    }

    /// Consumes all events until the current top of the stack is popped.
    pub fn pop_elt(&mut self) -> (r: Result<(), DeserializationError>)
        ensures
            (final(self)@, unit_view(r)) == old(self)@.pop_elt(),
    {
        let depth = self.stack.len();
        if depth == 0 {
            return Err(DeserializationError::EmptyStack);
        }
        loop
            invariant
                self@.events == old(self)@.events,
                old(self)@.pop_elt() == self@.close_until(depth as int),
            decreases self.events@.len() - self.cursor,
        {
            if self.cursor >= self.events.len() {
                return Err(DeserializationError::UnexpectedEof);
            }
            let ghost before = self@;
            let closes = match &self.events[self.cursor] {
                SgmlEvent::XmlCloseEmptyElement => {
                    self.cursor += 1;
                    self.stack.pop();
                    assert(before.stack.len() > 0 ==> self@.stack =~= before.stack.drop_last());
                    assert(before.stack.len() == 0 ==> self@.stack =~= before.stack);
                    true
                },
                SgmlEvent::EndTag { name } => {
                    let found = name.clone();
                    self.cursor += 1;
                    match self.stack.pop() {
                        None => {
                            return Err(DeserializationError::EmptyStack);
                        },
                        Some(expected) => {
                            assert(self@.stack =~= before.stack.drop_last());
                            assert(expected@ == before.stack.last());
                            if found != expected {
                                return Err(
                                    DeserializationError::MismatchedCloseTag { expected, found },
                                );
                            }
                        },
                    }
                    true
                },
                SgmlEvent::OpenStartTag { name } => {
                    let name = name.clone();
                    self.cursor += 1;
                    self.stack.push(name);
                    assert(self@.stack =~= before.stack.push(name@));
                    false
                },
                _ => {
                    self.cursor += 1;
                    false
                },
            };
            if closes && self.stack.len() < depth {
                return Ok(());
            }
        }
    }

    /// Skips attributes and CloseStartTag, going to the main content.
    ///
    /// Should only be used immediately after `push_elt`.
    pub fn advance_to_content(&mut self) -> (r: Result<(), DeserializationError>)
        ensures
            (final(self)@, unit_view(r)) == old(self)@.advance_to_content(),
    {
        loop
            invariant
                self@.events == old(self)@.events,
                old(self)@.advance_to_content() == self@.advance_to_content(),
            decreases self.events@.len() - self.cursor,
        {
            if self.cursor >= self.events.len() {
                return Err(DeserializationError::UnexpectedEof);
            }
            let skip = match &self.events[self.cursor] {
                SgmlEvent::Attribute { .. } => true,
                SgmlEvent::CloseStartTag => true,
                _ => false,
            };
            if !skip {
                return Ok(());
            }
            match self.advance() {
                Ok(_) => {},
                Err(e) => {
                    return Err(e);
                },
            }
        }
    }
}

/// What a text means as a boolean: `1` and `true` are true, `0` and
/// `false` are false, whatever the case of the letters.
pub open spec fn spec_parse_bool(text: Seq<char>) -> Result<bool, DeserializationErrorView> {
    if text == seq!['1'] || spec_eq_ignore_ascii_case(text, seq!['t', 'r', 'u', 'e']) {
        Ok(true)
    } else if text == seq!['0'] || spec_eq_ignore_ascii_case(
        text,
        seq!['f', 'a', 'l', 's', 'e'],
    ) {
        Ok(false)
    } else {
        Err(
            DeserializationErrorView::Message(
                "invalid value: string "@ + str_debug(text) + ", expected a boolean"@,
            ),
        )
    }
}

/// What an operation that yields a boolean returned, in the terms of
/// specifications.
pub open spec fn bool_view(r: Result<bool, DeserializationError>) -> Result<
    bool,
    DeserializationErrorView,
> {
    match r {
        Ok(b) => Ok(b),
        Err(e) => Err(e@),
    }
}

/// Tells what a text means as a boolean.
pub fn parse_bool(text: &str) -> (r: Result<bool, DeserializationError>)
    ensures
        bool_view(r) == spec_parse_bool(text@),
{
    let chars = to_chars(text);
    let one: [char; 1] = ['1'];
    let zero: [char; 1] = ['0'];
    let yes: [char; 4] = ['t', 'r', 'u', 'e'];
    let no: [char; 5] = ['f', 'a', 'l', 's', 'e'];
    assert(one@ == seq!['1']);
    assert(zero@ == seq!['0']);
    assert(yes@ == seq!['t', 'r', 'u', 'e']);
    assert(no@ == seq!['f', 'a', 'l', 's', 'e']);
    let is_one = chars.len() == 1 && chars[0] == '1';
    let is_zero = chars.len() == 1 && chars[0] == '0';
    assert(is_one == (text@ == seq!['1'])) by {
        if is_one {
            assert(text@ =~= seq!['1']);
        }
    }
    assert(is_zero == (text@ == seq!['0'])) by {
        if is_zero {
            assert(text@ =~= seq!['0']);
        }
    }
    if is_one || eq_ignore_ascii_case(chars.as_slice(), yes.as_slice()) {
        Ok(true)
    } else if is_zero || eq_ignore_ascii_case(chars.as_slice(), no.as_slice()) {
        Ok(false)
    } else {
        let mut message = String::new();
        push_text(&mut message, "invalid value: string ");
        push_debug_str(&mut message, text);
        push_text(&mut message, ", expected a boolean");
        Err(DeserializationError::Message(message))
    }
}

/// What is found at the cursor where a value of any kind is asked for.
#[derive(Clone, Copy, Debug, PartialEq, Eq)]
pub enum AnyKind {
    /// An element with child elements: a map.
    Element,
    /// An attribute, an element with text only, or the text that a struct
    /// captured: a string.
    Text,
    /// An element without content: a unit.
    Unit,
}

impl Cursor {
    /// The same outcome, without its value.
    pub open spec fn discard<T>(outcome: Outcome<T>) -> Outcome<()> {
        match outcome.1 {
            Ok(_) => (outcome.0, Ok(())),
            Err(e) => (outcome.0, Err(e)),
        }
    }

    /// The text of the element whose start tag was consumed, where `base`
    /// elements were open before it: `text` and the texts of all
    /// `Character` events up to the end tag of the element, those inside
    /// of child elements too. The events are consumed.
    pub open spec fn collect_text(self, base: int, text: Seq<char>) -> Outcome<Seq<char>>
        decreases self.events.len() - self.cursor,
    {
        if !self.has_event() {
            (self, Err(DeserializationErrorView::UnexpectedEof))
        } else {
            let (next, stepped) = match self.current() {
                EventView::OpenStartTag { .. } => self.push_elt(),
                EventView::EndTag { .. } => self.pop_elt(),
                _ => Self::discard(self.advance()),
            };
            match stepped {
                Err(e) => (next, Err(e)),
                Ok(()) => {
                    let text = match self.current() {
                        EventView::Character(t) => text + t,
                        _ => text,
                    };
                    if self.current() is EndTag && next.stack.len() == base {
                        (next, Ok(text))
                    } else if self.cursor < next.cursor <= self.events.len() && next.events
                        == self.events {
                        next.collect_text(base, text)
                    } else {
                        (next, Ok(text))
                    }
                },
            }
        }
    }

    /// The text at the cursor, which is consumed: the text that a struct
    /// captured, if there is one; else the value of the attribute at the
    /// cursor, which is empty if the attribute has none; else the text of
    /// the element whose start tag is at the cursor.
    pub open spec fn consume_text(self) -> Outcome<Seq<char>> {
        match self.accumulated_text {
            Some(text) => (Cursor { accumulated_text: None, ..self }, Ok(text)),
            None => if !self.has_event() {
                (self, Err(DeserializationErrorView::UnexpectedEof))
            } else {
                match self.current() {
                    EventView::Attribute { value, .. } => {
                        let (next, advanced) = self.advance();
                        match advanced {
                            Ok(_) => (
                                next,
                                Ok(
                                    match value {
                                        Some(v) => v,
                                        None => Seq::empty(),
                                    },
                                ),
                            ),
                            Err(e) => (next, Err(e)),
                        }
                    },
                    _ => {
                        let (next, pushed) = self.push_elt();
                        match pushed {
                            Ok(()) => next.collect_text(self.stack.len() as int, Seq::empty()),
                            Err(e) => (next, Err(e)),
                        }
                    },
                }
            },
        }
    }

    /// Whether the attribute at the cursor is true by its presence: it has
    /// no value, an empty value, or its own name as value, whatever the
    /// case of the letters.
    pub open spec fn bare_boolean(self) -> bool {
        self.has_event() && match self.current() {
            EventView::Attribute { name, value } => match value {
                None => true,
                Some(v) => v.len() == 0 || spec_eq_ignore_ascii_case(v, name),
            },
            _ => false,
        }
    }

    /// The boolean at the cursor, which is consumed: true for an attribute
    /// that is true by its presence, and else what the text at the cursor
    /// means.
    pub open spec fn read_bool(self) -> Outcome<bool> {
        if !self.has_event() {
            (self, Err(DeserializationErrorView::UnexpectedEof))
        } else if self.bare_boolean() {
            let (next, advanced) = self.advance();
            match advanced {
                Ok(_) => (next, Ok(true)),
                Err(e) => (next, Err(e)),
            }
        } else {
            let (next, text) = self.consume_text();
            match text {
                Ok(text) => (next, spec_parse_bool(text)),
                Err(e) => (next, Err(e)),
            }
        }
    }

    /// The unit at the cursor, which is consumed: the text that a struct
    /// captured, a whole element, or an attribute.
    pub open spec fn read_unit(self) -> Outcome<()> {
        if self.accumulated_text is Some {
            (Cursor { accumulated_text: None, ..self }, Ok(()))
        } else if !self.has_event() {
            (self, Err(DeserializationErrorView::UnexpectedEof))
        } else {
            match self.current() {
                EventView::OpenStartTag { .. } => {
                    let (next, pushed) = self.push_elt();
                    match pushed {
                        Ok(()) => next.pop_elt(),
                        Err(e) => (next, Err(e)),
                    }
                },
                EventView::Attribute { .. } => Self::discard(self.advance()),
                _ => (self, Err(DeserializationErrorView::ExpectedStartTag)),
            }
        }
    }

    /// What is found at the cursor where a value of any kind is asked
    /// for.
    pub open spec fn any_kind(self) -> Result<AnyKind, DeserializationErrorView> {
        if self.accumulated_text is Some {
            Ok(AnyKind::Text)
        } else if !self.has_event() {
            Err(DeserializationErrorView::UnexpectedEof)
        } else {
            match self.current() {
                EventView::OpenStartTag { .. } => match self.content_type_from(
                    self.cursor + 1,
                    false,
                ) {
                    Ok(content) => Ok(
                        if content.contains_child_elements {
                            AnyKind::Element
                        } else if content.contains_text {
                            AnyKind::Text
                        } else {
                            AnyKind::Unit
                        },
                    ),
                    Err(e) => Err(e),
                },
                EventView::Attribute { .. } => Ok(AnyKind::Text),
                _ => Err(DeserializationErrorView::ExpectedStartTag),
            }
        }
    }
}

impl SgmlDeserializer {
    /// Consumes an element and returns all its text.
    ///
    /// Includes text from child elements as well.
    pub fn consume_text(&mut self) -> (r: Result<String, DeserializationError>)
        ensures
            (final(self)@, text_view(r)) == old(self)@.consume_text(),
    {
        match self.accumulated_text.take() {
            Some(text) => {
                return Ok(text);
            },
            None => {},
        }
        if self.cursor >= self.events.len() {
            return Err(DeserializationError::UnexpectedEof);
        }
        match &self.events[self.cursor] {
            SgmlEvent::Attribute { value, .. } => {
                let value = match value {
                    Some(v) => v.clone(),
                    None => String::new(),
                };
                return match self.advance() {
                    Ok(_) => Ok(value),
                    Err(e) => Err(e),
                };
            },
            _ => {},
        }
        let base = self.stack.len();
        match self.push_elt() {
            Ok(()) => {},
            Err(e) => {
                return Err(e);
            },
        }
        let mut text = String::new();
        loop
            invariant
                self@.events == old(self)@.events,
                old(self)@.consume_text() == self@.collect_text(base as int, text@),
            decreases self.events@.len() - self.cursor,
        {
            if self.cursor >= self.events.len() {
                return Err(DeserializationError::UnexpectedEof);
            }
            let ghost before = self@;
            let mut closed = false;
            let stepped = match &self.events[self.cursor] {
                SgmlEvent::OpenStartTag { .. } => self.push_elt(),
                SgmlEvent::EndTag { .. } => {
                    closed = true;
                    self.pop_elt()
                },
                SgmlEvent::Character(t) => {
                    push_text(&mut text, t.as_str());
                    match self.advance() {
                        Ok(_) => Ok(()),
                        Err(e) => Err(e),
                    }
                },
                _ => match self.advance() {
                    Ok(_) => Ok(()),
                    Err(e) => Err(e),
                },
            };
            match stepped {
                Err(e) => {
                    return Err(e);
                },
                Ok(()) => {},
            }
            proof {
                lemma_step_moves(before);
            }
            if closed && self.stack.len() == base {
                return Ok(text);
            }
        }
    }

    /// Reads the boolean at the cursor.
    ///
    /// An attribute without a value, with an empty value or with its own
    /// name as value counts as true, as HTML has it (`<input checked>`,
    /// `checked="checked"`).
    pub fn read_bool(&mut self) -> (r: Result<bool, DeserializationError>)
        ensures
            (final(self)@, bool_view(r)) == old(self)@.read_bool(),
    {
        if self.cursor >= self.events.len() {
            return Err(DeserializationError::UnexpectedEof);
        }
        let bare = match &self.events[self.cursor] {
            SgmlEvent::Attribute { name, value } => match value {
                // Treat empty values and repetitions of the key as true values
                None => true,
                Some(v) => {
                    let v = to_chars(v.as_str());
                    let name = to_chars(name.as_str());
                    v.len() == 0 || eq_ignore_ascii_case(v.as_slice(), name.as_slice())
                },
            },
            _ => false,
        };
        if bare {
            return match self.advance() {
                Ok(_) => Ok(true),
                Err(e) => Err(e),
            };
        }
        match self.consume_text() {
            Ok(text) => parse_bool(text.as_str()),
            Err(e) => Err(e),
        }
    }

    /// Reads the unit at the cursor: consumes the text that a struct
    /// captured, a whole element, or an attribute.
    pub fn read_unit(&mut self) -> (r: Result<(), DeserializationError>)
        ensures
            (final(self)@, unit_view(r)) == old(self)@.read_unit(),
    {
        if self.accumulated_text.take().is_some() {
            return Ok(());
        }
        if self.cursor >= self.events.len() {
            return Err(DeserializationError::UnexpectedEof);
        }
        match &self.events[self.cursor] {
            SgmlEvent::OpenStartTag { .. } => match self.push_elt() {
                Ok(()) => self.pop_elt(),
                Err(e) => Err(e),
            },
            SgmlEvent::Attribute { .. } => match self.advance() {
                Ok(_) => Ok(()),
                Err(e) => Err(e),
            },
            _ => Err(DeserializationError::ExpectedStartTag),
        }
    }

    /// Tells what is found at the cursor where a value of any kind is
    /// asked for.
    pub fn any_kind(&self) -> (r: Result<AnyKind, DeserializationError>)
        ensures
            match r {
                Ok(kind) => self@.any_kind() == Ok::<_, DeserializationErrorView>(kind),
                Err(e) => self@.any_kind() == Err::<AnyKind, _>(e@),
            },
    {
        if self.accumulated_text.is_some() {
            return Ok(AnyKind::Text);
        }
        if self.cursor >= self.events.len() {
            return Err(DeserializationError::UnexpectedEof);
        }
        match &self.events[self.cursor] {
            SgmlEvent::OpenStartTag { .. } => match self.peek_content_type() {
                Ok(content) => Ok(
                    if content.contains_child_elements {
                        AnyKind::Element
                    } else if content.contains_text {
                        AnyKind::Text
                    } else {
                        AnyKind::Unit
                    },
                ),
                Err(e) => Err(e),
            },
            SgmlEvent::Attribute { .. } => Ok(AnyKind::Text),
            _ => Err(DeserializationError::ExpectedStartTag),
        }
    }
}

/// An operation that consumes the event at the cursor moves the cursor
/// forward, within the events, which it leaves as they are.
pub proof fn lemma_step_moves(st: Cursor)
    requires
        st.has_event(),
    ensures
        st.advance().0.events == st.events,
        st.cursor < st.advance().0.cursor <= st.events.len(),
        st.push_elt().0.events == st.events,
        st.cursor < st.push_elt().0.cursor <= st.events.len() || st.push_elt().1 is Err,
        st.pop_elt().0.events == st.events,
        st.pop_elt().1 is Ok ==> st.cursor < st.pop_elt().0.cursor <= st.events.len(),
{
    if st.stack.len() > 0 {
        lemma_close_until_moves(st, st.stack.len() as int);
    }
}

/// Closing elements moves the cursor forward, within the events, which it
/// leaves as they are.
pub proof fn lemma_close_until_moves(st: Cursor, depth: int)
    ensures
        st.close_until(depth).0.events == st.events,
        st.close_until(depth).1 is Ok ==> st.cursor < st.close_until(depth).0.cursor
            <= st.events.len(),
    decreases st.events.len() - st.cursor,
{
    if st.has_event() {
        let next = st.at(st.cursor + 1);
        match st.current() {
            EventView::XmlCloseEmptyElement => {
                let closed = if st.stack.len() > 0 {
                    next.with_stack(st.stack.drop_last())
                } else {
                    next
                };
                if closed.stack.len() >= depth {
                    lemma_close_until_moves(closed, depth);
                }
            },
            EventView::EndTag { name } => {
                let closed = next.with_stack(st.stack.drop_last());
                if st.stack.len() > 0 && name == st.stack.last() && closed.stack.len() >= depth {
                    lemma_close_until_moves(closed, depth);
                }
            },
            EventView::OpenStartTag { name } => {
                lemma_close_until_moves(next.with_stack(st.stack.push(name)), depth);
            },
            _ => {
                lemma_close_until_moves(next, depth);
            },
        }
    }
}

} // verus!
