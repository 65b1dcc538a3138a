//! The events that a parsed SGML document is made of.

use vstd::prelude::*;

use crate::chars::contains_char;
use crate::chars::push_char;
use crate::text::escaped;
use crate::text::push_escaped;
use crate::text::push_reference;
use crate::text::reference_tail;
use crate::chars::to_chars;

verus! {

/// Represents a relevant occurrence in an SGML document.
///
/// Some aspects to keep in mind when working with events:
///
/// * Start tags are represented by *two or more* events:
///   one event for the opening of the tag (`<A`),
///   optionally followed by one event for each attribute (`HREF="example"`),
///   and finally one event for the closing of the tag (`>`).
/// * End tags (`</A>`), however, are single-event occurrences.
/// * Comments are *ignored*, and do not show up as events.
#[derive(Clone, Debug, Eq, PartialEq)]
pub enum SgmlEvent {
    /// A markup declaration, like `<!SGML ...>` or `<!DOCTYPE ...>`.
    ///
    /// Markup declarations that are purely comments are ignored.
    MarkupDeclaration { keyword: String, body: String },
    /// A processing instruction, e.g. `<?EXAMPLE>`
    ProcessingInstruction(String),
    /// A marked section, like `<![IGNORE[...]]>`.
    MarkedSection { status_keywords: String, section: String },
    /// The beginning of a start-element tag, e.g. `<EXAMPLE`.
    ///
    /// Empty start-elements (`<>`) are also represented by this event,
    /// with an empty name.
    OpenStartTag { name: String },
    /// An attribute inside a start-element tag, e.g. `FOO="bar"`.
    Attribute { name: String, value: Option<String> },
    /// Closing of a start-element tag, e.g. `>`.
    CloseStartTag,
    /// XML-specific closing of empty elements, e.g. `/>`
    XmlCloseEmptyElement,
    /// An end-element tag, e.g. `</EXAMPLE>`.
    ///
    /// Empty end-element tags (`</>`) are also represented by this event,
    /// with an empty name.
    EndTag { name: String },
    /// Any string of characters that is not part of a tag.
    Character(String),
}

/// The mathematical value of an [`SgmlEvent`]: the same cases, with each
/// string as the sequence of its characters.
pub enum EventView {
    MarkupDeclaration { keyword: Seq<char>, body: Seq<char> },
    ProcessingInstruction(Seq<char>),
    MarkedSection { status_keywords: Seq<char>, section: Seq<char> },
    OpenStartTag { name: Seq<char> },
    Attribute { name: Seq<char>, value: Option<Seq<char>> },
    CloseStartTag,
    XmlCloseEmptyElement,
    EndTag { name: Seq<char> },
    Character(Seq<char>),
}

/// The characters of an optional string.
pub open spec fn option_view(s: Option<String>) -> Option<Seq<char>> {
    match s {
        Some(s) => Some(s@),
        None => None,
    }
}

impl View for SgmlEvent {
    type V = EventView;

    open spec fn view(&self) -> EventView {
        match *self {
            SgmlEvent::MarkupDeclaration { keyword, body } => EventView::MarkupDeclaration {
                keyword: keyword@,
                body: body@,
            },
            SgmlEvent::ProcessingInstruction(s) => EventView::ProcessingInstruction(s@),
            SgmlEvent::MarkedSection { status_keywords, section } => EventView::MarkedSection {
                status_keywords: status_keywords@,
                section: section@,
            },
            SgmlEvent::OpenStartTag { name } => EventView::OpenStartTag { name: name@ },
            SgmlEvent::Attribute { name, value } => EventView::Attribute {
                name: name@,
                value: option_view(value),
            },
            SgmlEvent::CloseStartTag => EventView::CloseStartTag,
            SgmlEvent::XmlCloseEmptyElement => EventView::XmlCloseEmptyElement,
            SgmlEvent::EndTag { name } => EventView::EndTag { name: name@ },
            SgmlEvent::Character(s) => EventView::Character(s@),
        }
    }
}

/// The values of a sequence of events, one for one.
pub open spec fn views(events: Seq<SgmlEvent>) -> Seq<EventView> {
    Seq::new(events.len(), |i: int| events[i]@)
}

/// An attribute value with `"` and `&` written as `&#34;` and `&#38;`.
pub open spec fn quote_escaped(s: Seq<char>) -> Seq<char>
    decreases s.len(),
{
    if s.len() == 0 {
        Seq::empty()
    } else {
        quote_escaped_char(s[0]) + quote_escaped(s.drop_first())
    }
}

/// What stands for `c` in a double-quoted attribute value that escapes.
pub open spec fn quote_escaped_char(c: char) -> Seq<char> {
    if c == '"' {
        seq!['&'] + reference_tail(34)
    } else if c == '&' {
        seq!['&'] + reference_tail(38)
    } else {
        seq![c]
    }
}

/// How an attribute value is written after the attribute's name: in double
/// quotes unless it holds one and no single quote; where it holds `&`, or
/// both kinds of quote, in double quotes with `"` and `&` as character
/// references.
pub open spec fn display_attribute_value(v: Seq<char>) -> Seq<char> {
    if !v.contains('&') && !v.contains('"') {
        seq!['=', '"'] + v + seq!['"']
    } else if !v.contains('&') && !v.contains('\'') {
        seq!['=', '\''] + v + seq!['\'']
    } else {
        seq!['=', '"'] + quote_escaped(v) + seq!['"']
    }
}

/// The SGML text that an event is written as.
pub open spec fn display_event(e: EventView) -> Seq<char> {
    match e {
        EventView::MarkupDeclaration { keyword, body } => seq!['<', '!'] + keyword + (if body.len()
            > 0 {
            seq![' '] + body
        } else {
            Seq::empty()
        }) + seq!['>'],
        EventView::ProcessingInstruction(s) => s,
        EventView::MarkedSection { status_keywords, section } => seq!['<', '!', '[']
            + status_keywords + seq!['['] + section + seq![']', ']', '>'],
        EventView::OpenStartTag { name } => seq!['<'] + name,
        EventView::Attribute { name, value } => match value {
            None => name,
            Some(v) => name + display_attribute_value(v),
        },
        EventView::CloseStartTag => seq!['>'],
        EventView::XmlCloseEmptyElement => seq!['/', '>'],
        EventView::EndTag { name } => seq!['<', '/'] + name + seq!['>'],
        EventView::Character(text) => escaped(text, true),
    }
}

/// The SGML text that a sequence of events is written as: each event in
/// turn, with a space before each attribute.
pub open spec fn display_events(events: Seq<EventView>) -> Seq<char>
    decreases events.len(),
{
    if events.len() == 0 {
        Seq::empty()
    } else {
        display_events(events.drop_last()) + (if events.last() is Attribute {
            seq![' ']
        } else {
            Seq::empty()
        }) + display_event(events.last())
    }
}

/// Appends the characters of `text` to `s`.
pub fn push_text(s: &mut String, text: &str)
    ensures
        final(s)@ == old(s)@ + text@,
{
    broadcast use vstd::string::group_string_axioms;

    for c in it: text.chars()
        invariant
            it.seq() == text@,
            s@ == old(s)@ + text@.take(it.index()),
    {
        proof {
            let k = it.index();
            assert(text@.take(k + 1) == text@.take(k).push(c));
        }
        push_char(s, c);
    }
    assert(text@.take(text@.len() as int) == text@);
}

/// Appends an attribute value to `s` with `"` and `&` as character
/// references.
pub fn push_quote_escaped(s: &mut String, value: &str)
    ensures
        final(s)@ == old(s)@ + quote_escaped(value@),
{
    let v = to_chars(value);
    let mut i: usize = 0;
    assert(v@.take(0) == Seq::<char>::empty());
    while i < v.len()
        invariant
            i <= v@.len(),
            v@ == value@,
            s@ == old(s)@ + quote_escaped(v@.take(i as int)),
        decreases v@.len() - i,
    {
        let c = v[i];
        proof {
            lemma_quote_escaped_push(v@.take(i as int), c);
            assert(v@.take(i + 1) == v@.take(i as int).push(c));
        }
        if c == '"' {
            push_reference(s, 34);
        } else if c == '&' {
            push_reference(s, 38);
        } else {
            push_char(s, c);
            assert(seq![c] == Seq::<char>::empty().push(c));
        }
        i += 1;
    }
    assert(v@.take(v@.len() as int) == v@);
}

/// Quote escaping goes character by character.
pub proof fn lemma_quote_escaped_push(s: Seq<char>, c: char)
    ensures
        quote_escaped(s.push(c)) == quote_escaped(s) + quote_escaped_char(c),
    decreases s.len(),
{
    if s.len() == 0 {
        assert(s.push(c).drop_first() == Seq::<char>::empty());
        assert(quote_escaped(s.push(c).drop_first()) == Seq::<char>::empty());
        assert(quote_escaped(s.push(c)) == quote_escaped_char(c) + Seq::<char>::empty());
    } else {
        lemma_quote_escaped_push(s.drop_first(), c);
        assert(s.push(c).drop_first() == s.drop_first().push(c));
        assert(s.push(c)[0] == s[0]);
    }
}

/// A copy of an optional string.
pub fn clone_option(s: &Option<String>) -> (r: Option<String>)
    ensures
        r == *s,
{
    match s {
        Some(s) => Some(s.clone()),
        None => None,
    }
}

impl SgmlEvent {
    /// Returns the event with every string owned by it. Events of this
    /// library always own their strings, so this is the event itself.
    pub fn into_owned(self) -> (r: SgmlEvent)
        ensures
            r == self,
    {
        self
    }

    /// A copy of the event.
    pub fn duplicate(&self) -> (r: SgmlEvent)
        ensures
            r == *self,
    {
        match self {
            SgmlEvent::MarkupDeclaration { keyword, body } => SgmlEvent::MarkupDeclaration {
                keyword: keyword.clone(),
                body: body.clone(),
            },
            SgmlEvent::ProcessingInstruction(s) => SgmlEvent::ProcessingInstruction(s.clone()),
            SgmlEvent::MarkedSection { status_keywords, section } => SgmlEvent::MarkedSection {
                status_keywords: status_keywords.clone(),
                section: section.clone(),
            },
            SgmlEvent::OpenStartTag { name } => SgmlEvent::OpenStartTag { name: name.clone() },
            SgmlEvent::Attribute { name, value } => SgmlEvent::Attribute {
                name: name.clone(),
                value: clone_option(value),
            },
            SgmlEvent::CloseStartTag => SgmlEvent::CloseStartTag,
            SgmlEvent::XmlCloseEmptyElement => SgmlEvent::XmlCloseEmptyElement,
            SgmlEvent::EndTag { name } => SgmlEvent::EndTag { name: name.clone() },
            SgmlEvent::Character(s) => SgmlEvent::Character(s.clone()),
        }
    }

    /// Appends to `out` the SGML text that this event is written as.
    pub fn write_to(&self, out: &mut String)
        ensures
            final(out)@ == old(out)@ + display_event(self@),
    {
        match self {
            SgmlEvent::MarkupDeclaration { keyword, body } => {
                push_char(out, '<');
                push_char(out, '!');
                push_text(out, keyword.as_str());
                if body.as_str().unicode_len() > 0 {
                    push_char(out, ' ');
                    push_text(out, body.as_str());
                }
                push_char(out, '>');
                assert(out@ == old(out)@ + display_event(self@));
            },
            SgmlEvent::ProcessingInstruction(s) => {
                push_text(out, s.as_str());
            },
            SgmlEvent::MarkedSection { status_keywords, section } => {
                push_char(out, '<');
                push_char(out, '!');
                push_char(out, '[');
                push_text(out, status_keywords.as_str());
                push_char(out, '[');
                push_text(out, section.as_str());
                push_char(out, ']');
                push_char(out, ']');
                push_char(out, '>');
                assert(out@ == old(out)@ + display_event(self@));
            },
            SgmlEvent::OpenStartTag { name } => {
                push_char(out, '<');
                push_text(out, name.as_str());
                assert(out@ == old(out)@ + display_event(self@));
            },
            SgmlEvent::Attribute { name, value } => {
                push_text(out, name.as_str());
                match value {
                    None => {},
                    Some(value) => {
                        let escape_ampersand = contains_char(value.as_str(), '&');
                        if !escape_ampersand && !contains_char(value.as_str(), '"') {
                            push_char(out, '=');
                            push_char(out, '"');
                            push_text(out, value.as_str());
                            push_char(out, '"');
                        } else if !escape_ampersand && !contains_char(value.as_str(), '\'') {
                            push_char(out, '=');
                            push_char(out, '\'');
                            push_text(out, value.as_str());
                            push_char(out, '\'');
                        } else {
                            push_char(out, '=');
                            push_char(out, '"');
                            push_quote_escaped(out, value.as_str());
                            push_char(out, '"');
                        }
                        assert(out@ == old(out)@ + (name@ + display_attribute_value(value@)));
                    },
                }
            },
            SgmlEvent::CloseStartTag => {
                push_char(out, '>');
                assert(out@ == old(out)@ + display_event(self@));
            },
            SgmlEvent::XmlCloseEmptyElement => {
                push_char(out, '/');
                push_char(out, '>');
                assert(out@ == old(out)@ + display_event(self@));
            },
            SgmlEvent::EndTag { name } => {
                push_char(out, '<');
                push_char(out, '/');
                push_text(out, name.as_str());
                push_char(out, '>');
                assert(out@ == old(out)@ + display_event(self@));
            },
            SgmlEvent::Character(text) => {
                let v = to_chars(text.as_str());
                push_escaped(out, v.as_slice(), 0, v.len(), true);
                assert(v@.subrange(0, v@.len() as int) == text@);
            },
        }
    }

    /// The SGML text that this event is written as.
    pub fn to_string(&self) -> (s: String)
        ensures
            s@ == display_event(self@),
    {
        let mut s = String::new();
        self.write_to(&mut s);
        s
    }
}

/// The values of a sequence of events that is made of two: those of the
/// first, then those of the second.
pub proof fn lemma_views_concat(a: Seq<SgmlEvent>, b: Seq<SgmlEvent>)
    ensures
        views(a + b) == views(a) + views(b),
{
    assert(views(a + b) =~= views(a) + views(b));
}

/// The values of a sequence of events with one more at its end.
pub proof fn lemma_views_push(a: Seq<SgmlEvent>, e: SgmlEvent)
    ensures
        views(a.push(e)) == views(a).push(e@),
{
    assert(views(a.push(e)) =~= views(a).push(e@));
}

/// Whether a start tag is open after the events: `Some(true)` after an
/// `OpenStartTag` and the attributes that follow it, `Some(false)` outside
/// of start tags, and `None` where an event stands where it may not: an
/// attribute or the closing of a start tag outside of a start tag, or
/// anything but those inside of one.
pub open spec fn tag_state(events: Seq<EventView>) -> Option<bool>
    decreases events.len(),
{
    if events.len() == 0 {
        Some(false)
    } else {
        match tag_state(events.drop_last()) {
            None => None,
            Some(open) => match events.last() {
                EventView::OpenStartTag { .. } => if open {
                    None
                } else {
                    Some(true)
                },
                EventView::Attribute { .. } => if open {
                    Some(true)
                } else {
                    None
                },
                EventView::CloseStartTag | EventView::XmlCloseEmptyElement => if open {
                    Some(false)
                } else {
                    None
                },
                _ => if open {
                    None
                } else {
                    Some(false)
                },
            },
        }
    }
}

/// Every `OpenStartTag` of the events is followed by exactly one
/// `CloseStartTag` or `XmlCloseEmptyElement`, with nothing but `Attribute`
/// events in between, and attributes and the closings of start tags
/// appear nowhere else.
pub open spec fn start_tags_closed(events: Seq<EventView>) -> bool {
    tag_state(events) == Some(false)
}

/// After events whose start tags are closed, further events stand as if
/// they came first.
pub proof fn lemma_tag_state_concat(a: Seq<EventView>, b: Seq<EventView>)
    requires
        start_tags_closed(a),
    ensures
        tag_state(a + b) == tag_state(b),
    decreases b.len(),
{
    if b.len() == 0 {
        assert(a + b == a);
    } else {
        lemma_tag_state_concat(a, b.drop_last());
        assert((a + b).drop_last() == a + b.drop_last());
        assert((a + b).last() == b.last());
    }
}

/// A single event that is not part of a start tag has its start tags
/// closed.
pub proof fn lemma_tag_state_single(e: EventView)
    requires
        !(e is OpenStartTag),
        !(e is Attribute),
        !(e is CloseStartTag),
        !(e is XmlCloseEmptyElement),
    ensures
        start_tags_closed(seq![e]),
{
    assert(seq![e].drop_last() == Seq::<EventView>::empty());
    assert(tag_state(seq![e].drop_last()) == Some(false));
}

/// Whether all the events are attributes.
pub open spec fn all_attributes(events: Seq<EventView>) -> bool {
    forall|i: int| 0 <= i < events.len() ==> (#[trigger] events[i]) is Attribute
}

/// A whole start tag has its start tags closed: an `OpenStartTag`,
/// attributes, and a closing.
pub proof fn lemma_tag_state_start_tag(open: EventView, attributes: Seq<EventView>, close: EventView)
    requires
        open is OpenStartTag,
        all_attributes(attributes),
        close is CloseStartTag || close is XmlCloseEmptyElement,
    ensures
        tag_state(seq![open] + attributes) == Some(true),
        start_tags_closed((seq![open] + attributes).push(close)),
    decreases attributes.len(),
{
    let head = seq![open] + attributes;
    if attributes.len() == 0 {
        assert(head.drop_last() == Seq::<EventView>::empty());
        assert(tag_state(head.drop_last()) == Some(false));
    } else {
        lemma_tag_state_start_tag(open, attributes.drop_last(), close);
        assert(head.drop_last() == seq![open] + attributes.drop_last());
        assert(head.last() == attributes.last());
    }
    assert(head.push(close).drop_last() == head);
}

} // verus!
