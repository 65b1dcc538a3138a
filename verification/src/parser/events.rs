//! Higher-level recognizers that produce [`SgmlEvent`]s.

use vstd::prelude::*;
use vstd::slice::slice_subrange;

use crate::chars::find_from;
use crate::chars::first_match;
use crate::chars::matches_at;
use crate::chars::substring;
use crate::chars::to_chars;
use crate::entities::expansion;
use crate::entities::EntityError;
use crate::entities::ReferenceKind;
use crate::error::Error;
use crate::error::ErrorView;
use crate::event::all_attributes;
use crate::event::lemma_tag_state_concat;
use crate::event::lemma_tag_state_single;
use crate::event::lemma_tag_state_start_tag;
use crate::event::lemma_views_concat;
use crate::event::lemma_views_push;
use crate::event::start_tags_closed;
use crate::event::views;
use crate::event::EventView;
use crate::event::SgmlEvent;
use crate::marked_sections::MarkedSectionStatus;
use crate::parser::config::ConfigView;
use crate::parser::config::MarkedSectionHandling;
use crate::parser::config::ParserConfig;
use crate::parser::error::caused;
use crate::parser::error::cut;
use crate::parser::error::expected;
use crate::parser::error::mismatch;
use crate::parser::error::recoverable;
use crate::parser::error::within;
use crate::parser::error::Context;
use crate::parser::error::Failure;
use crate::parser::error::FailureView;
use crate::parser::error::Parsed;
use crate::parser::raw;
use crate::parser::raw::MarkedSectionEndHandling;
use crate::parser::util;
use crate::parser::util::spaces;
use crate::parser::util::spaces_end;
use crate::parser::util::Span;

verus! {

/// The text `s[span.0..span.1]`.
pub open spec fn text_of(s: Seq<char>, span: (int, int)) -> Seq<char> {
    s.subrange(span.0, span.1)
}

/// What a recognizer of events yielded, in the terms of specifications.
pub open spec fn events_view(r: Result<(Vec<SgmlEvent>, usize), Failure>) -> Parsed<
    Seq<EventView>,
> {
    match r {
        Ok((events, rest)) => Ok((views(events@), rest as int)),
        Err(f) => Err(f@),
    }
}

/// What a recognizer of one event yielded, in the terms of
/// specifications.
pub open spec fn event_view(r: Result<(SgmlEvent, usize), Failure>) -> Parsed<EventView> {
    match r {
        Ok((event, rest)) => Ok((event@, rest as int)),
        Err(f) => Err(f@),
    }
}

/// What holds of the events that a recognizer yields: it stays within the
/// text, does not go back, and leaves no start tag open.
pub open spec fn events_in_bounds(
    r: Result<(Vec<SgmlEvent>, usize), Failure>,
    pos: usize,
    len: nat,
) -> bool {
    r matches Ok((events, rest)) ==> pos <= rest <= len && start_tags_closed(views(events@))
}

/// The same result, with the events `prefix` before its own.
pub open spec fn prefixed(prefix: Seq<EventView>, r: Parsed<Seq<EventView>>) -> Parsed<
    Seq<EventView>,
> {
    match r {
        Ok((events, rest)) => Ok((prefix + events, rest)),
        Err(f) => Err(f),
    }
}

/// Events put before a result one after the other are put before it
/// together.
pub proof fn lemma_prefixed_twice(a: Seq<EventView>, b: Seq<EventView>, r: Parsed<Seq<EventView>>)
    ensures
        prefixed(a, prefixed(b, r)) == prefixed(a + b, r),
{
    if r is Ok {
        assert(a + (b + r->Ok_0.0) == (a + b) + r->Ok_0.0);
    }
}

/// The expansion of the replaceable character data `s[span.0..span.1]`.
/// An undefined entity is a fatal failure at `at`.
pub open spec fn spec_rcdata(s: Seq<char>, span: (int, int), cfg: ConfigView, at: int) -> Result<
    Seq<char>,
    FailureView,
> {
    match expansion(text_of(s, span), ReferenceKind::General, cfg.entities) {
        Ok(text) => Ok(text),
        Err(name) => Err(caused(at, ErrorView::EntityError(name))),
    }
}

/// Expands the replaceable character data `input[span.0..span.1]`.
pub fn rcdata(input: &[char], span: Span, config: &ParserConfig, at: usize) -> (r: Result<
    String,
    Failure,
>)
    requires
        span.0 <= span.1 <= input@.len(),
    ensures
        match r {
            Ok(text) => spec_rcdata(input@, (span.0 as int, span.1 as int), config@, at as int)
                == Ok::<_, FailureView>(text@),
            Err(f) => spec_rcdata(input@, (span.0 as int, span.1 as int), config@, at as int)
                == Err::<Seq<char>, _>(f@),
        },
{
    match config.parse_rcdata(input, span) {
        Ok(text) => Ok(text),
        Err(e) => Err(Failure::caused(at, Error::EntityError(e))),
    }
}

/// A markup declaration, from `pos` on, as events: one event with the
/// keyword and the body, or none where the settings ignore markup
/// declarations.
pub open spec fn spec_markup_declaration(s: Seq<char>, pos: int, cfg: ConfigView) -> Parsed<
    Seq<EventView>,
> {
    match raw::spec_markup_declaration(s, pos) {
        Ok(((keyword, body), rest)) => Ok(
            (
                if cfg.ignore_markup_declarations {
                    Seq::empty()
                } else {
                    seq![EventView::MarkupDeclaration { keyword: text_of(s, keyword), body: text_of(s, body) }]
                },
                rest,
            ),
        ),
        Err(f) => Err(f),
    }
}

/// Matches a markup declaration and outputs its event.
pub fn markup_declaration(input: &[char], pos: usize, config: &ParserConfig) -> (r: Result<
    (Vec<SgmlEvent>, usize),
    Failure,
>)
    requires
        pos <= input@.len(),
    ensures
        events_view(r) == spec_markup_declaration(input@, pos as int, config@),
        events_in_bounds(r, pos, input@.len()),
        r matches Ok((_, rest)) ==> pos < rest,
{
    match raw::markup_declaration(input, pos) {
        Ok(((keyword, body), rest)) => {
            let mut events: Vec<SgmlEvent> = Vec::new();
            if !config.ignore_markup_declarations {
                let event = SgmlEvent::MarkupDeclaration {
                    keyword: substring(input, keyword.0, keyword.1),
                    body: substring(input, body.0, body.1),
                };
                events.push(event);
                proof {
                    lemma_tag_state_single(event@);
                    assert(views(events@) == seq![event@]);
                }
            } else {
                assert(views(events@) == Seq::<EventView>::empty());
            }
            Ok((events, rest))
        },
        Err(f) => Err(f),
    }
}

/// A processing instruction, from `pos` on, as events: one event with the
/// text of the instruction, or none where the settings ignore processing
/// instructions.
pub open spec fn spec_processing_instruction(s: Seq<char>, pos: int, cfg: ConfigView) -> Parsed<
    Seq<EventView>,
> {
    match raw::spec_processing_instruction(s, pos) {
        Ok((span, rest)) => Ok(
            (
                if cfg.ignore_processing_instructions {
                    Seq::empty()
                } else {
                    seq![EventView::ProcessingInstruction(text_of(s, span))]
                },
                rest,
            ),
        ),
        Err(f) => Err(f),
    }
}

/// Matches a processing instruction and outputs its event.
pub fn processing_instruction(input: &[char], pos: usize, config: &ParserConfig) -> (r: Result<
    (Vec<SgmlEvent>, usize),
    Failure,
>)
    requires
        pos <= input@.len(),
    ensures
        events_view(r) == spec_processing_instruction(input@, pos as int, config@),
        events_in_bounds(r, pos, input@.len()),
        r matches Ok((_, rest)) ==> pos < rest,
{
    match raw::processing_instruction(input, pos) {
        Ok((span, rest)) => {
            let mut events: Vec<SgmlEvent> = Vec::new();
            if !config.ignore_processing_instructions {
                let event = SgmlEvent::ProcessingInstruction(substring(input, span.0, span.1));
                events.push(event);
                proof {
                    lemma_tag_state_single(event@);
                    assert(views(events@) == seq![event@]);
                }
            } else {
                assert(views(events@) == Seq::<EventView>::empty());
            }
            Ok((events, rest))
        },
        Err(f) => Err(f),
    }
}

/// Text, from `pos` on, as events: the text is trimmed if the settings
/// ask for it; if nothing is left there is no event, and else one event
/// with the text and its references expanded.
pub open spec fn spec_text(
    s: Seq<char>,
    pos: int,
    cfg: ConfigView,
    mse: MarkedSectionEndHandling,
) -> Parsed<Seq<EventView>> {
    match raw::spec_text(s, pos, mse) {
        Err(f) => Err(f),
        Ok((span, rest)) => {
            let trimmed = cfg.trim(s, span.0, span.1);
            if trimmed.0 == trimmed.1 {
                Ok((Seq::empty(), rest))
            } else {
                match spec_rcdata(s, trimmed, cfg, trimmed.0) {
                    Ok(text) => Ok((seq![EventView::Character(text)], rest)),
                    Err(f) => Err(f),
                }
            }
        },
    }
}

/// Matches text and outputs its event, if it is not empty.
pub fn text(
    input: &[char],
    pos: usize,
    config: &ParserConfig,
    mse: MarkedSectionEndHandling,
) -> (r: Result<(Vec<SgmlEvent>, usize), Failure>)
    requires
        pos <= input@.len(),
    ensures
        events_view(r) == spec_text(input@, pos as int, config@, mse),
        events_in_bounds(r, pos, input@.len()),
        r matches Ok((_, rest)) ==> pos < rest,
{
    let (span, rest) = match raw::text(input, pos, mse) {
        Err(f) => {
            return Err(f);
        },
        Ok(r) => r,
    };
    let trimmed = config.trim(input, span);
    let mut events: Vec<SgmlEvent> = Vec::new();
    if trimmed.0 == trimmed.1 {
        assert(views(events@) == Seq::<EventView>::empty());
        return Ok((events, rest));
    }
    match rcdata(input, trimmed, config, trimmed.0) {
        Ok(text) => {
            let event = SgmlEvent::Character(text);
            events.push(event);
            proof {
                lemma_tag_state_single(event@);
                assert(views(events@) == seq![event@]);
            }
            Ok((events, rest))
        },
        Err(f) => Err(f),
    }
}

/// An attribute, from `pos` on, as an event: its name is normalized; a
/// quoted value has its references expanded, an unquoted one is taken as
/// it stands. An undefined entity is a fatal failure at the start of the
/// value's text.
pub open spec fn spec_attribute(s: Seq<char>, pos: int, cfg: ConfigView) -> Parsed<EventView> {
    match raw::spec_attribute(s, pos) {
        Err(f) => Err(f),
        Ok(((name, value), rest)) => {
            let name = cfg.name_normalization.normalized(text_of(s, name));
            match value {
                None => Ok((EventView::Attribute { name, value: None }, rest)),
                Some((span, quoted)) => if quoted {
                    match spec_rcdata(s, span, cfg, span.0) {
                        Ok(text) => Ok((EventView::Attribute { name, value: Some(text) }, rest)),
                        Err(f) => Err(
                            f.within(span.0 - 1, Context::AttributeValue).within(
                                pos,
                                Context::Attribute,
                            ),
                        ),
                    }
                } else {
                    Ok((EventView::Attribute { name, value: Some(text_of(s, span)) }, rest))
                },
            }
        },
    }
}

/// Matches an attribute and outputs its event.
pub fn attribute(input: &[char], pos: usize, config: &ParserConfig) -> (r: Result<
    (SgmlEvent, usize),
    Failure,
>)
    requires
        pos <= input@.len(),
    ensures
        event_view(r) == spec_attribute(input@, pos as int, config@),
        r matches Ok((event, rest)) ==> pos < rest <= input@.len() && event is Attribute,
{
    let ((name, value), rest) = match raw::attribute(input, pos) {
        Err(f) => {
            return Err(f);
        },
        Ok(r) => r,
    };
    let name = config.name_normalization.normalize_span(input, name);
    match value {
        None => Ok((SgmlEvent::Attribute { name, value: None }, rest)),
        Some((span, quoted)) => {
            if quoted {
                proof {
                    // a quoted value starts after its quote
                    assert(raw::spec_attribute(input@, pos as int) is Ok);
                    lemma_quoted_value_after_quote(input@, pos as int);
                }
                match rcdata(input, span, config, span.0) {
                    Ok(text) => Ok((SgmlEvent::Attribute { name, value: Some(text) }, rest)),
                    Err(f) => Err(
                        f.within(span.0 - 1, Context::AttributeValue).within(
                            pos,
                            Context::Attribute,
                        ),
                    ),
                }
            } else {
                Ok(
                    (
                        SgmlEvent::Attribute {
                            name,
                            value: Some(substring(input, span.0, span.1)),
                        },
                        rest,
                    ),
                )
            }
        },
    }
}

/// The text of a quoted attribute value starts after the quote, which
/// stands after the name.
pub proof fn lemma_quoted_value_after_quote(s: Seq<char>, pos: int)
    requires
        raw::spec_attribute(s, pos) matches Ok(((_, Some((_, true))), _)),
        0 <= pos <= s.len(),
    ensures
        raw::spec_attribute(s, pos) matches Ok(((_, Some((span, _))), _)) && span.0 > pos,
{
    let e = raw::name_end(s, pos)->Some_0;
    raw::lemma_name_chars_end_bounds(s, pos + 1);
    util::lemma_spaces_end_bounds(s, e);
    let p = spaces_end(s, e);
    util::lemma_spaces_end_bounds(s, p + 1);
}

/// The attributes of a start tag, each followed by optional spaces, from
/// `cur` on.
pub open spec fn spec_attributes(s: Seq<char>, cur: int, cfg: ConfigView) -> Parsed<
    Seq<EventView>,
>
    decreases s.len() - cur,
{
    match spec_attribute(s, cur, cfg) {
        Ok((event, e)) => {
            let next = spaces_end(s, e);
            if cur < next <= s.len() {
                prefixed(seq![event], spec_attributes(s, next, cfg))
            } else {
                Err(mismatch(cur))
            }
        },
        Err(f) => if f.fatal {
            Err(f)
        } else {
            Ok((Seq::empty(), cur))
        },
    }
}

/// A start tag, from `pos` on, as events: `OpenStartTag` with the
/// normalized name, one `Attribute` for each attribute, and
/// `XmlCloseEmptyElement` for `/>` or `CloseStartTag` for `>`. The empty
/// start tag `<>` gives `OpenStartTag` with an empty name and
/// `CloseStartTag`. Once the name was seen, a failure is fatal.
pub open spec fn spec_start_tag(s: Seq<char>, pos: int, cfg: ConfigView) -> Parsed<
    Seq<EventView>,
> {
    let full: Parsed<Seq<EventView>> = match raw::spec_open_start_tag(s, pos) {
        Err(f) => Err(f),
        Ok((name, e)) => {
            let open = EventView::OpenStartTag {
                name: cfg.name_normalization.normalized(text_of(s, name)),
            };
            match spec_attributes(s, spaces_end(s, e), cfg) {
                Err(f) => Err(f),
                Ok((attributes, cur)) => if matches_at(s, cur, seq!['/', '>']) {
                    Ok(((seq![open] + attributes).push(EventView::XmlCloseEmptyElement), cur + 2))
                } else if 0 <= cur < s.len() && s[cur] == '>' {
                    Ok(((seq![open] + attributes).push(EventView::CloseStartTag), cur + 1))
                } else {
                    Err(expected(cur, '>').cut())
                },
            }
        },
    };
    within(
        if recoverable(full) {
            match raw::spec_tag(s, pos, seq!['<', '>']) {
                Ok((_, rest)) => Ok(
                    (
                        seq![
                            EventView::OpenStartTag { name: Seq::empty() },
                            EventView::CloseStartTag,
                        ],
                        rest,
                    ),
                ),
                Err(f) => Err(f),
            }
        } else {
            full
        },
        pos,
        Context::StartTag,
    )
}

/// Matches an entire start tag, and outputs a sequence of events describing it.
#[verifier::loop_isolation(false)]
pub fn start_tag(input: &[char], pos: usize, config: &ParserConfig) -> (r: Result<
    (Vec<SgmlEvent>, usize),
    Failure,
>)
    requires
        pos <= input@.len(),
    ensures
        events_view(r) == spec_start_tag(input@, pos as int, config@),
        events_in_bounds(r, pos, input@.len()),
        r matches Ok((_, rest)) ==> pos < rest,
{
    let (name, e) = match raw::open_start_tag(input, pos) {
        Err(_) => {
            return match raw::empty_start_tag(input, pos) {
                Ok((_, rest)) => {
                    let mut events: Vec<SgmlEvent> = Vec::new();
                    let open = SgmlEvent::OpenStartTag { name: String::new() };
                    events.push(open);
                    events.push(SgmlEvent::CloseStartTag);
                    proof {
                        assert(views(events@) == seq![
                            EventView::OpenStartTag { name: Seq::empty() },
                            EventView::CloseStartTag,
                        ]);
                        lemma_tag_state_start_tag(
                            open@,
                            Seq::empty(),
                            EventView::CloseStartTag,
                        );
                        assert(views(events@) == (seq![open@] + Seq::<EventView>::empty()).push(
                            EventView::CloseStartTag,
                        ));
                    }
                    Ok((events, rest))
                },
                Err(f) => Err(f.within(pos, Context::StartTag)),
            };
        },
        Ok(r) => r,
    };
    let open = SgmlEvent::OpenStartTag {
        name: config.name_normalization.normalize_span(input, name),
    };
    let mut events: Vec<SgmlEvent> = Vec::new();
    events.push(open);
    let start = spaces(input, e);
    let mut cur: usize = start;
    let ghost mut attributes: Seq<EventView> = Seq::empty();
    proof {
        assert(views(events@) == seq![open@] + attributes);
        assert(prefixed(attributes, spec_attributes(input@, cur as int, config@))
            == spec_attributes(input@, start as int, config@)) by {
            let r = spec_attributes(input@, cur as int, config@);
            if r is Ok {
                assert(attributes + r->Ok_0.0 == r->Ok_0.0);
            }
        }
    }
    loop
        invariant
            pos < start <= cur <= input@.len(),
            all_attributes(attributes),
            views(events@) == seq![open@] + attributes,
            spec_attributes(input@, start as int, config@) == prefixed(
                attributes,
                spec_attributes(input@, cur as int, config@),
            ),
        decreases input@.len() - cur,
    {
        match attribute(input, cur, config) {
            Ok((event, after)) => {
                let next = spaces(input, after);
                proof {
                    lemma_prefixed_twice(
                        attributes,
                        seq![event@],
                        spec_attributes(input@, next as int, config@),
                    );
                    lemma_views_push(events@, event);
                    assert((seq![open@] + attributes).push(event@) == seq![open@] + (attributes
                        + seq![event@]));
                    attributes = attributes + seq![event@];
                }
                events.push(event);
                cur = next;
            },
            Err(f) => {
                if f.fatal {
                    return Err(f.within(pos, Context::StartTag));
                }
                proof {
                    assert(attributes + Seq::<EventView>::empty() == attributes);
                }
                let close: [char; 2] = ['/', '>'];
                assert(close@ == seq!['/', '>']);
                if crate::chars::starts_with_at(input, cur, close.as_slice()) {
                    proof {
                        lemma_views_push(events@, SgmlEvent::XmlCloseEmptyElement);
                        lemma_tag_state_start_tag(
                            open@,
                            attributes,
                            EventView::XmlCloseEmptyElement,
                        );
                    }
                    events.push(SgmlEvent::XmlCloseEmptyElement);
                    return Ok((events, cur + 2));
                } else if cur < input.len() && input[cur] == '>' {
                    proof {
                        lemma_views_push(events@, SgmlEvent::CloseStartTag);
                        lemma_tag_state_start_tag(open@, attributes, EventView::CloseStartTag);
                    }
                    events.push(SgmlEvent::CloseStartTag);
                    return Ok((events, cur + 1));
                } else {
                    return Err(Failure::expected(cur, '>').cut().within(pos, Context::StartTag));
                }
            },
        }
    }
}

/// An end tag, from `pos` on, as an event: `EndTag` with the normalized
/// name, which is empty for `</>`.
pub open spec fn spec_end_tag(s: Seq<char>, pos: int, cfg: ConfigView) -> Parsed<Seq<EventView>> {
    match raw::spec_end_tag(s, pos) {
        Err(f) => Err(f),
        Ok((name, rest)) => Ok(
            (
                seq![
                    EventView::EndTag {
                        name: match name {
                            Some(span) => cfg.name_normalization.normalized(text_of(s, span)),
                            None => Seq::empty(),
                        },
                    },
                ],
                rest,
            ),
        ),
    }
}

/// Matches an end tag and outputs its event.
pub fn end_tag(input: &[char], pos: usize, config: &ParserConfig) -> (r: Result<
    (Vec<SgmlEvent>, usize),
    Failure,
>)
    requires
        pos <= input@.len(),
    ensures
        events_view(r) == spec_end_tag(input@, pos as int, config@),
        events_in_bounds(r, pos, input@.len()),
        r matches Ok((_, rest)) ==> pos < rest,
{
    match raw::end_tag(input, pos) {
        Err(f) => Err(f),
        Ok((name, rest)) => {
            let name = match name {
                Some(span) => config.name_normalization.normalize_span(input, span),
                None => String::new(),
            };
            let event = SgmlEvent::EndTag { name };
            let mut events: Vec<SgmlEvent> = Vec::new();
            events.push(event);
            proof {
                lemma_tag_state_single(event@);
                assert(views(events@) == seq![event@]);
            }
            Ok((events, rest))
        },
    }
}

/// The same result, without its value.
pub open spec fn only_events<T>(r: Parsed<T>, events: Seq<EventView>) -> Parsed<Seq<EventView>> {
    match r {
        Ok((_, rest)) => Ok((events, rest)),
        Err(f) => Err(f),
    }
}

/// The failure that an invalid status keyword causes: the keyword is the
/// text `keywords[bad.0..bad.1]` of the expanded status keywords; the
/// failure points at its first occurrence in the status keywords as they
/// stand in the source text, at `raw`, or at their start if it does not
/// occur there, as when it comes from a parameter entity.
pub open spec fn invalid_keyword(
    s: Seq<char>,
    raw: (int, int),
    keywords: Seq<char>,
    bad: (int, int),
) -> FailureView {
    let word = text_of(keywords, bad);
    let at = match first_match(text_of(s, raw), 0, word) {
        Some(i) => raw.0 + i,
        None => raw.0,
    };
    caused(at, ErrorView::InvalidMarkedSectionKeyword(word))
}

/// A marked section declaration, from `pos` on, as events.
///
/// After `<![` the status keywords are read and their parameter entity
/// references expanded. The status that they give under the settings
/// decides how the body is read and what events it gives: see
/// [`spec_marked_section_body`]. An undefined parameter entity and an
/// invalid keyword are fatal failures.
pub open spec fn spec_marked_section_declaration(s: Seq<char>, pos: int, cfg: ConfigView) -> Parsed<
    Seq<EventView>,
>
    decreases s.len() - pos, 0int,
{
    within(
        match raw::spec_marked_section_start_and_keywords(s, pos) {
            Err(f) => Err(f),
            Ok((raw, rest)) => match expansion(
                text_of(s, raw),
                ReferenceKind::Parameter,
                cfg.parameter_entities,
            ) {
                Err(name) => Err(caused(raw.0, ErrorView::EntityError(name))),
                Ok(keywords) => match cfg.marked_section_handling.status_of(keywords) {
                    Err(bad) => Err(invalid_keyword(s, raw, keywords, bad)),
                    Ok(status) => if pos < rest <= s.len() {
                        spec_marked_section_body(s, rest, keywords, status, cfg)
                    } else {
                        Err(mismatch(pos))
                    },
                },
            },
        },
        pos,
        Context::MarkedSectionDeclaration,
    )
}

/// The body of a marked section and its end, from `pos` on, as events.
///
/// Where marked sections are kept unmodified, the body gives one
/// `MarkedSection` event with the expanded status keywords and the text of
/// the body: of an `IGNORE` section up to the `]]>` that closes no `<![`
/// of the body, of a `CDATA` or `RCDATA` section up to the first `]]>`,
/// and of an `INCLUDE` section the text that parses as content, which
/// `]]>` must follow.
///
/// Otherwise the body of an `IGNORE` section gives no event; that of a
/// `CDATA` section one `Character` event with the trimmed text; that of an
/// `RCDATA` section one `Character` event with the trimmed text and its
/// references expanded; and that of an `INCLUDE` section the events of the
/// content that it parses as, after which everything up to the next `]]>`
/// is skipped.
pub open spec fn spec_marked_section_body(
    s: Seq<char>,
    pos: int,
    keywords: Seq<char>,
    status: MarkedSectionStatus,
    cfg: ConfigView,
) -> Parsed<Seq<EventView>>
    decreases s.len() - pos, 5int,
{
    match cfg.marked_section_handling {
        MarkedSectionHandling::KeepUnmodified => {
            let body: Parsed<(int, int)> = match status {
                MarkedSectionStatus::Ignore => raw::spec_marked_section_body_ignore(s, pos),
                MarkedSectionStatus::CData => raw::spec_marked_section_body_character_data(s, pos),
                MarkedSectionStatus::RcData => raw::spec_marked_section_body_character_data(
                    s,
                    pos,
                ),
                MarkedSectionStatus::Include => match spec_content(
                    s,
                    pos,
                    cfg,
                    MarkedSectionEndHandling::StopParsing,
                ) {
                    Err(f) => Err(f),
                    Ok((_, e)) => match raw::spec_marked_section_end(s, e) {
                        Ok((_, rest)) => Ok(((pos, e), rest)),
                        Err(f) => Err(f),
                    },
                },
            };
            match body {
                Ok((span, rest)) => Ok(
                    (
                        seq![
                            EventView::MarkedSection {
                                status_keywords: keywords,
                                section: text_of(s, span),
                            },
                        ],
                        rest,
                    ),
                ),
                Err(f) => Err(f),
            }
        },
        _ => match status {
            MarkedSectionStatus::Ignore => only_events(
                raw::spec_marked_section_body_ignore(s, pos),
                Seq::empty(),
            ),
            MarkedSectionStatus::CData => match raw::spec_marked_section_body_character_data(
                s,
                pos,
            ) {
                Ok((span, rest)) => Ok(
                    (seq![EventView::Character(text_of(s, cfg.trim(s, span.0, span.1)))], rest),
                ),
                Err(f) => Err(f),
            },
            MarkedSectionStatus::RcData => match raw::spec_marked_section_body_character_data(
                s,
                pos,
            ) {
                Ok((span, rest)) => {
                    let trimmed = cfg.trim(s, span.0, span.1);
                    match spec_rcdata(s, trimmed, cfg, trimmed.0) {
                        Ok(text) => Ok((seq![EventView::Character(text)], rest)),
                        Err(f) => Err(f),
                    }
                },
                Err(f) => Err(f),
            },
            MarkedSectionStatus::Include => match spec_content(
                s,
                pos,
                cfg,
                MarkedSectionEndHandling::StopParsing,
            ) {
                Err(f) => Err(f),
                Ok((events, e)) => only_events(
                    raw::spec_marked_section_body_character_data(s, e),
                    events,
                ),
            },
        },
    }
}

/// A single unit of content, at `pos`, as events: text, a start tag, an
/// end tag, a processing instruction, or a marked section declaration,
/// whichever is found first in this order. Where none is, a `<` is
/// expected.
pub open spec fn spec_content_item(
    s: Seq<char>,
    pos: int,
    cfg: ConfigView,
    mse: MarkedSectionEndHandling,
) -> Parsed<Seq<EventView>>
    decreases s.len() - pos, 1int,
{
    let text = spec_text(s, pos, cfg, mse);
    if !recoverable(text) {
        text
    } else {
        let start_tag = spec_start_tag(s, pos, cfg);
        if !recoverable(start_tag) {
            start_tag
        } else {
            let end_tag = spec_end_tag(s, pos, cfg);
            if !recoverable(end_tag) {
                end_tag
            } else {
                let instruction = spec_processing_instruction(s, pos, cfg);
                if !recoverable(instruction) {
                    instruction
                } else {
                    let section = spec_marked_section_declaration(s, pos, cfg);
                    if !recoverable(section) {
                        section
                    } else {
                        Err(expected(pos, '<'))
                    }
                }
            }
        }
    }
}

/// A unit of content and the comment declarations that follow it.
pub open spec fn spec_content_unit(
    s: Seq<char>,
    pos: int,
    cfg: ConfigView,
    mse: MarkedSectionEndHandling,
) -> Parsed<Seq<EventView>>
    decreases s.len() - pos, 2int,
{
    match spec_content_item(s, pos, cfg, mse) {
        Err(f) => Err(f),
        Ok((events, e)) => only_events(util::spec_comment_declarations(s, e), events),
    }
}

/// The units of content that follow a first one, from `cur` on.
pub open spec fn spec_more_content(
    s: Seq<char>,
    cur: int,
    cfg: ConfigView,
    mse: MarkedSectionEndHandling,
) -> Parsed<Seq<EventView>>
    decreases s.len() - cur, 3int,
{
    match spec_content_unit(s, cur, cfg, mse) {
        Ok((events, e)) => if cur < e <= s.len() {
            prefixed(events, spec_more_content(s, e, cfg, mse))
        } else {
            Err(mismatch(cur))
        },
        Err(f) => if f.fatal {
            Err(f)
        } else {
            Ok((Seq::empty(), cur))
        },
    }
}

/// The content of a document, from `pos` on, as events: one or more units
/// of content, with the comment declarations between them left out.
pub open spec fn spec_content(
    s: Seq<char>,
    pos: int,
    cfg: ConfigView,
    mse: MarkedSectionEndHandling,
) -> Parsed<Seq<EventView>>
    decreases s.len() - pos, 4int,
{
    match spec_content_unit(s, pos, cfg, mse) {
        Err(f) => Err(f),
        Ok((events, e)) => if pos <= e <= s.len() {
            prefixed(events, spec_more_content(s, e, cfg, mse))
        } else {
            Err(mismatch(pos))
        },
    }
}

/// Appends the events `more` to `events`.
fn append(events: &mut Vec<SgmlEvent>, more: Vec<SgmlEvent>)
    requires
        start_tags_closed(views(old(events)@)),
        start_tags_closed(views(more@)),
    ensures
        views(final(events)@) == views(old(events)@) + views(more@),
        start_tags_closed(views(final(events)@)),
{
    let mut more = more;
    proof {
        lemma_views_concat(events@, more@);
        lemma_tag_state_concat(views(events@), views(more@));
    }
    events.append(&mut more);
}

/// Matches an entire marked section declaration and
/// produces events according to [`ParserConfig::marked_section_handling`].
pub fn marked_section_declaration(input: &[char], pos: usize, config: &ParserConfig) -> (r: Result<
    (Vec<SgmlEvent>, usize),
    Failure,
>)
    requires
        pos <= input@.len(),
    ensures
        events_view(r) == spec_marked_section_declaration(input@, pos as int, config@),
        events_in_bounds(r, pos, input@.len()),
        r matches Ok((_, rest)) ==> pos < rest,
    decreases input@.len() - pos, 0int,
{
    let (raw, rest) = match raw::marked_section_start_and_keywords(input, pos) {
        Err(f) => {
            return Err(f.within(pos, Context::MarkedSectionDeclaration));
        },
        Ok(r) => r,
    };
    let status_keywords = match config.parse_markup_declaration_text(input, raw) {
        Err(e) => {
            return Err(
                Failure::caused(raw.0, Error::EntityError(e)).within(
                    pos,
                    Context::MarkedSectionDeclaration,
                ),
            );
        },
        Ok(text) => text,
    };
    let keywords = to_chars(status_keywords.as_str());
    let status = match config.marked_section_handling.parse_keywords(keywords.as_slice()) {
        Ok(status) => status,
        Err(bad) => {
            let word = slice_subrange(keywords.as_slice(), bad.0, bad.1);
            let raw_keywords = slice_subrange(input, raw.0, raw.1);
            // There's no match if the keyword came from a parameter entity expansion
            let at = match find_from(raw_keywords, 0, word) {
                Some(i) => raw.0 + i,
                None => raw.0,
            };
            let keyword = substring(keywords.as_slice(), bad.0, bad.1);
            return Err(
                Failure::caused(at, Error::InvalidMarkedSectionKeyword(keyword)).within(
                    pos,
                    Context::MarkedSectionDeclaration,
                ),
            );
        },
    };
    match marked_section_body(input, rest, status_keywords, status, config) {
        Ok(r) => Ok(r),
        Err(f) => Err(f.within(pos, Context::MarkedSectionDeclaration)),
    }
}

/// Matches the marked section + end inside a marked section declaration and
/// produces events according to [`ParserConfig::marked_section_handling`].
pub fn marked_section_body(
    input: &[char],
    pos: usize,
    status_keywords: String,
    status: MarkedSectionStatus,
    config: &ParserConfig,
) -> (r: Result<(Vec<SgmlEvent>, usize), Failure>)
    requires
        pos <= input@.len(),
    ensures
        events_view(r) == spec_marked_section_body(
            input@,
            pos as int,
            status_keywords@,
            status,
            config@,
        ),
        events_in_bounds(r, pos, input@.len()),
        r matches Ok((_, rest)) ==> pos < rest,
    decreases input@.len() - pos, 5int,
{
    let mut events: Vec<SgmlEvent> = Vec::new();
    match config.marked_section_handling {
        MarkedSectionHandling::KeepUnmodified => {
            let body = match status {
                MarkedSectionStatus::Ignore => raw::marked_section_body_ignore(input, pos),
                MarkedSectionStatus::CData => raw::marked_section_body_character_data(input, pos),
                MarkedSectionStatus::RcData => raw::marked_section_body_character_data(
                    input,
                    pos,
                ),
                MarkedSectionStatus::Include => match content(
                    input,
                    pos,
                    config,
                    MarkedSectionEndHandling::StopParsing,
                ) {
                    Err(f) => Err(f),
                    Ok((_, e)) => match raw::marked_section_end(input, e) {
                        Ok((_, rest)) => Ok(((pos, e), rest)),
                        Err(f) => Err(f),
                    },
                },
            };
            match body {
                Ok((span, rest)) => {
                    let event = SgmlEvent::MarkedSection {
                        status_keywords,
                        section: substring(input, span.0, span.1),
                    };
                    events.push(event);
                    proof {
                        lemma_tag_state_single(event@);
                        assert(views(events@) == seq![event@]);
                    }
                    Ok((events, rest))
                },
                Err(f) => Err(f),
            }
        },
        _ => match status {
            MarkedSectionStatus::Ignore => match raw::marked_section_body_ignore(input, pos) {
                Ok((_, rest)) => {
                    assert(views(events@) == Seq::<EventView>::empty());
                    Ok((events, rest))
                },
                Err(f) => Err(f),
            },
            MarkedSectionStatus::CData => match raw::marked_section_body_character_data(
                input,
                pos,
            ) {
                Ok((span, rest)) => {
                    let trimmed = config.trim(input, span);
                    let event = SgmlEvent::Character(substring(input, trimmed.0, trimmed.1));
                    events.push(event);
                    proof {
                        lemma_tag_state_single(event@);
                        assert(views(events@) == seq![event@]);
                    }
                    Ok((events, rest))
                },
                Err(f) => Err(f),
            },
            MarkedSectionStatus::RcData => match raw::marked_section_body_character_data(
                input,
                pos,
            ) {
                Ok((span, rest)) => {
                    let trimmed = config.trim(input, span);
                    match rcdata(input, trimmed, config, trimmed.0) {
                        Ok(text) => {
                            let event = SgmlEvent::Character(text);
                            events.push(event);
                            proof {
                                lemma_tag_state_single(event@);
                                assert(views(events@) == seq![event@]);
                            }
                            Ok((events, rest))
                        },
                        Err(f) => Err(f),
                    }
                },
                Err(f) => Err(f),
            },
            MarkedSectionStatus::Include => match content(
                input,
                pos,
                config,
                MarkedSectionEndHandling::StopParsing,
            ) {
                Err(f) => Err(f),
                Ok((events, e)) => match raw::marked_section_body_character_data(input, e) {
                    Ok((_, rest)) => Ok((events, rest)),
                    Err(f) => Err(f),
                },
            },
        },
    }
}

/// Matches a single unit of content --- a tag, text data, processing instruction, or section declaration.
pub fn content_item(
    input: &[char],
    pos: usize,
    config: &ParserConfig,
    mse: MarkedSectionEndHandling,
) -> (r: Result<(Vec<SgmlEvent>, usize), Failure>)
    requires
        pos <= input@.len(),
    ensures
        events_view(r) == spec_content_item(input@, pos as int, config@, mse),
        events_in_bounds(r, pos, input@.len()),
        r matches Ok((_, rest)) ==> pos < rest,
    decreases input@.len() - pos, 1int,
{
    match text(input, pos, config, mse) {
        Ok(r) => {
            return Ok(r);
        },
        Err(f) => if f.fatal {
            return Err(f);
        },
    }
    match start_tag(input, pos, config) {
        Ok(r) => {
            return Ok(r);
        },
        Err(f) => if f.fatal {
            return Err(f);
        },
    }
    match end_tag(input, pos, config) {
        Ok(r) => {
            return Ok(r);
        },
        Err(f) => if f.fatal {
            return Err(f);
        },
    }
    match processing_instruction(input, pos, config) {
        Ok(r) => {
            return Ok(r);
        },
        Err(f) => if f.fatal {
            return Err(f);
        },
    }
    match marked_section_declaration(input, pos, config) {
        Ok(r) => {
            return Ok(r);
        },
        Err(f) => if f.fatal {
            return Err(f);
        },
    }
    // When all else fails, signal we expected at least opening a tag
    Err(Failure::expected(pos, '<'))
}

/// Matches a unit of content and the comment declarations that follow
/// it.
pub fn content_unit(
    input: &[char],
    pos: usize,
    config: &ParserConfig,
    mse: MarkedSectionEndHandling,
) -> (r: Result<(Vec<SgmlEvent>, usize), Failure>)
    requires
        pos <= input@.len(),
    ensures
        events_view(r) == spec_content_unit(input@, pos as int, config@, mse),
        events_in_bounds(r, pos, input@.len()),
        r matches Ok((_, rest)) ==> pos < rest,
    decreases input@.len() - pos, 2int,
{
    match content_item(input, pos, config, mse) {
        Err(f) => Err(f),
        Ok((events, e)) => match util::comment_declarations(input, e) {
            Ok(rest) => Ok((events, rest)),
            Err(f) => Err(f),
        },
    }
}

/// Matches the content main content area of a SGML document --- one or more [`content_item`]s.
#[verifier::loop_isolation(false)]
pub fn content(
    input: &[char],
    pos: usize,
    config: &ParserConfig,
    mse: MarkedSectionEndHandling,
) -> (r: Result<(Vec<SgmlEvent>, usize), Failure>)
    requires
        pos <= input@.len(),
    ensures
        events_view(r) == spec_content(input@, pos as int, config@, mse),
        events_in_bounds(r, pos, input@.len()),
        r matches Ok((_, rest)) ==> pos < rest,
    decreases input@.len() - pos, 4int,
{
    let (mut events, first) = match content_unit(input, pos, config, mse) {
        Err(f) => {
            return Err(f);
        },
        Ok(r) => r,
    };
    let mut cur: usize = first;
    loop
        invariant
            pos < first <= cur <= input@.len(),
            start_tags_closed(views(events@)),
            spec_content(input@, pos as int, config@, mse) == prefixed(
                views(events@),
                spec_more_content(input@, cur as int, config@, mse),
            ),
        decreases input@.len() - cur,
    {
        match content_unit(input, cur, config, mse) {
            Ok((more, e)) => {
                proof {
                    lemma_prefixed_twice(
                        views(events@),
                        views(more@),
                        spec_more_content(input@, e as int, config@, mse),
                    );
                }
                append(&mut events, more);
                cur = e;
            },
            Err(f) => {
                if f.fatal {
                    return Err(f);
                }
                proof {
                    assert(views(events@) + Seq::<EventView>::empty() == views(events@));
                }
                return Ok((events, cur));
            },
        }
    }
}

/// One declaration of the prolog, at `pos`, as events: a markup
/// declaration, a marked section declaration or a processing
/// instruction, and the comments and spaces that follow it.
pub open spec fn spec_prolog_unit(s: Seq<char>, pos: int, cfg: ConfigView) -> Parsed<
    Seq<EventView>,
> {
    let declaration = spec_markup_declaration(s, pos, cfg);
    let item = if !recoverable(declaration) {
        declaration
    } else {
        let section = spec_marked_section_declaration(s, pos, cfg);
        if !recoverable(section) {
            section
        } else {
            spec_processing_instruction(s, pos, cfg)
        }
    };
    match item {
        Err(f) => Err(f),
        Ok((events, e)) => only_events(util::spec_comments_and_spaces(s, e), events),
    }
}

/// The declarations of the prolog, from `cur` on.
pub open spec fn spec_prolog_units(s: Seq<char>, cur: int, cfg: ConfigView) -> Parsed<
    Seq<EventView>,
>
    decreases s.len() - cur,
{
    match spec_prolog_unit(s, cur, cfg) {
        Ok((events, e)) => if cur < e <= s.len() {
            prefixed(events, spec_prolog_units(s, e, cfg))
        } else {
            Err(mismatch(cur))
        },
        Err(f) => if f.fatal {
            Err(f)
        } else {
            Ok((Seq::empty(), cur))
        },
    }
}

/// The prolog of a document, from `pos` on, as events: zero or more
/// markup declarations, marked section declarations and processing
/// instructions, each followed by optional comments and spaces.
pub open spec fn spec_prolog(s: Seq<char>, pos: int, cfg: ConfigView) -> Parsed<Seq<EventView>> {
    within(spec_prolog_units(s, pos, cfg), pos, Context::Prolog)
}

/// Matches one declaration of the prolog and the comments and spaces that
/// follow it.
fn prolog_unit(input: &[char], pos: usize, config: &ParserConfig) -> (r: Result<
    (Vec<SgmlEvent>, usize),
    Failure,
>)
    requires
        pos <= input@.len(),
    ensures
        events_view(r) == spec_prolog_unit(input@, pos as int, config@),
        events_in_bounds(r, pos, input@.len()),
        r matches Ok((_, rest)) ==> pos < rest,
{
    let item = match markup_declaration(input, pos, config) {
        Ok(r) => Ok(r),
        Err(f) => if f.fatal {
            Err(f)
        } else {
            match marked_section_declaration(input, pos, config) {
                Ok(r) => Ok(r),
                Err(f) => if f.fatal {
                    Err(f)
                } else {
                    processing_instruction(input, pos, config)
                },
            }
        },
    };
    match item {
        Err(f) => Err(f),
        Ok((events, e)) => match util::comments_and_spaces(input, e) {
            Ok(rest) => Ok((events, rest)),
            Err(f) => Err(f),
        },
    }
}

/// Matches the prolog of a document: its declarations.
#[verifier::loop_isolation(false)]
pub fn prolog(input: &[char], pos: usize, config: &ParserConfig) -> (r: Result<
    (Vec<SgmlEvent>, usize),
    Failure,
>)
    requires
        pos <= input@.len(),
    ensures
        events_view(r) == spec_prolog(input@, pos as int, config@),
        events_in_bounds(r, pos, input@.len()),
{
    let mut events: Vec<SgmlEvent> = Vec::new();
    let mut cur: usize = pos;
    proof {
        assert(views(events@) == Seq::<EventView>::empty());
        let r = spec_prolog_units(input@, pos as int, config@);
        if r is Ok {
            assert(views(events@) + r->Ok_0.0 == r->Ok_0.0);
        }
    }
    loop
        invariant
            pos <= cur <= input@.len(),
            start_tags_closed(views(events@)),
            spec_prolog_units(input@, pos as int, config@) == prefixed(
                views(events@),
                spec_prolog_units(input@, cur as int, config@),
            ),
        decreases input@.len() - cur,
    {
        match prolog_unit(input, cur, config) {
            Ok((more, e)) => {
                proof {
                    lemma_prefixed_twice(
                        views(events@),
                        views(more@),
                        spec_prolog_units(input@, e as int, config@),
                    );
                }
                append(&mut events, more);
                cur = e;
            },
            Err(f) => {
                if f.fatal {
                    return Err(f.within(pos, Context::Prolog));
                }
                proof {
                    assert(views(events@) + Seq::<EventView>::empty() == views(events@));
                }
                return Ok((events, cur));
            },
        }
    }
}

/// The processing instructions of the epilogue, each followed by optional
/// comments and spaces, from `cur` on.
pub open spec fn spec_epilogue(s: Seq<char>, cur: int, cfg: ConfigView) -> Parsed<Seq<EventView>>
    decreases s.len() - cur,
{
    let unit = match spec_processing_instruction(s, cur, cfg) {
        Err(f) => Err(f),
        Ok((events, e)) => only_events(util::spec_comments_and_spaces(s, e), events),
    };
    match unit {
        Ok((events, e)) => if cur < e <= s.len() {
            prefixed(events, spec_epilogue(s, e, cfg))
        } else {
            Err(mismatch(cur))
        },
        Err(f) => if f.fatal {
            Err(f)
        } else {
            Ok((Seq::empty(), cur))
        },
    }
}

/// Matches the epilogue of a document: processing instructions, comments
/// and spaces.
#[verifier::loop_isolation(false)]
pub fn epilogue(input: &[char], pos: usize, config: &ParserConfig) -> (r: Result<
    (Vec<SgmlEvent>, usize),
    Failure,
>)
    requires
        pos <= input@.len(),
    ensures
        events_view(r) == spec_epilogue(input@, pos as int, config@),
        events_in_bounds(r, pos, input@.len()),
{
    let mut events: Vec<SgmlEvent> = Vec::new();
    let mut cur: usize = pos;
    proof {
        assert(views(events@) == Seq::<EventView>::empty());
        let r = spec_epilogue(input@, pos as int, config@);
        if r is Ok {
            assert(views(events@) + r->Ok_0.0 == r->Ok_0.0);
        }
    }
    loop
        invariant
            pos <= cur <= input@.len(),
            start_tags_closed(views(events@)),
            spec_epilogue(input@, pos as int, config@) == prefixed(
                views(events@),
                spec_epilogue(input@, cur as int, config@),
            ),
        decreases input@.len() - cur,
    {
        let unit = match processing_instruction(input, cur, config) {
            Err(f) => Err(f),
            Ok((more, e)) => match util::comments_and_spaces(input, e) {
                Ok(rest) => Ok((more, rest)),
                Err(f) => Err(f),
            },
        };
        match unit {
            Ok((more, e)) => {
                proof {
                    lemma_prefixed_twice(
                        views(events@),
                        views(more@),
                        spec_epilogue(input@, e as int, config@),
                    );
                }
                append(&mut events, more);
                cur = e;
            },
            Err(f) => {
                if f.fatal {
                    return Err(f);
                }
                proof {
                    assert(views(events@) + Seq::<EventView>::empty() == views(events@));
                }
                return Ok((events, cur));
            },
        }
    }
}

/// A whole document as events: comments and spaces; the prolog; the
/// content, which may not be missing; and the epilogue, after which the
/// text must end. The events are those of the prolog, of the content and
/// of the epilogue, in this order.
pub open spec fn spec_document_entity(s: Seq<char>, cfg: ConfigView) -> Parsed<Seq<EventView>> {
    match util::spec_comments_and_spaces(s, 0) {
        Err(f) => Err(f),
        Ok((_, start)) => match spec_prolog(s, start, cfg) {
            Err(f) => Err(f),
            Ok((declarations, p)) => match within(
                cut(spec_content(s, p, cfg, MarkedSectionEndHandling::TreatAsText)),
                p,
                Context::DocumentContent,
            ) {
                Err(f) => Err(f),
                Ok((content, q)) => match spec_epilogue(s, q, cfg) {
                    Err(f) => Err(f),
                    Ok((instructions, end)) => if end == s.len() {
                        Ok((declarations + content + instructions, end))
                    } else {
                        Err(mismatch(end))
                    },
                },
            },
        },
    }
}

/// Matches a whole document and outputs its events.
pub fn document_entity(input: &[char], config: &ParserConfig) -> (r: Result<
    (Vec<SgmlEvent>, usize),
    Failure,
>)
    ensures
        events_view(r) == spec_document_entity(input@, config@),
        r matches Ok((events, rest)) ==> rest == input@.len() && start_tags_closed(
            views(events@),
        ),
{
    let start = match util::comments_and_spaces(input, 0) {
        Err(f) => {
            return Err(f);
        },
        Ok(start) => start,
    };
    let (mut events, p) = match prolog(input, start, config) {
        Err(f) => {
            return Err(f);
        },
        Ok(r) => r,
    };
    let (items, q) = match content(input, p, config, MarkedSectionEndHandling::TreatAsText) {
        Err(f) => {
            return Err(f.cut().within(p, Context::DocumentContent));
        },
        Ok(r) => r,
    };
    let (instructions, end) = match epilogue(input, q, config) {
        Err(f) => {
            return Err(f);
        },
        Ok(r) => r,
    };
    if end != input.len() {
        return Err(Failure::mismatch(end));
    }
    append(&mut events, items);
    append(&mut events, instructions);
    Ok((events, end))
}

} // verus!
