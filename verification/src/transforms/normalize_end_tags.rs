//! Insertion of the end tags that a document leaves out.

use vstd::prelude::*;

use crate::event::push_text;
use crate::event::start_tags_closed;
use crate::event::tag_state;
use crate::event::views;
use crate::event::EventView;
use crate::event::SgmlEvent;
use crate::fragment::SgmlFragment;
use crate::text::is_blank;
use crate::text::spec_is_blank;

verus! {

/// The error type in the event tag normalization fails.
///
/// This is returned by [`normalize_end_tags`].
#[derive(Clone, Debug, Eq, PartialEq)]
pub enum NormalizationError {
    /// An end tag has no start tag to go with.
    UnpairedEndTag(String),
    /// The fragment holds an empty start tag (`<>`) or end tag (`</>`).
    EmptyTagNotSupported,
}

impl NormalizationError {
    /// The message of the error.
    pub open spec fn message(self) -> Seq<char> {
        match self {
            NormalizationError::UnpairedEndTag(name) => "unpaired end tag: </"@ + name@ + ">"@,
            NormalizationError::EmptyTagNotSupported => "empty tags (<> and </>) are not supported"@,
        }
    }

    /// The message of the error.
    pub fn to_string(&self) -> (s: String)
        ensures
            s@ == self.message(),
    {
        let mut s = String::new();
        match self {
            NormalizationError::UnpairedEndTag(name) => {
                push_text(&mut s, "unpaired end tag: </");
                push_text(&mut s, name.as_str());
                push_text(&mut s, ">");
            },
            NormalizationError::EmptyTagNotSupported => {
                push_text(&mut s, "empty tags (<> and </>) are not supported");
            },
        }
        s
    }
}

/// The mathematical value of a [`NormalizationError`].
pub enum NormalizationErrorView {
    UnpairedEndTag(Seq<char>),
    EmptyTagNotSupported,
}

impl View for NormalizationError {
    type V = NormalizationErrorView;

    open spec fn view(&self) -> NormalizationErrorView {
        match *self {
            NormalizationError::UnpairedEndTag(name) => NormalizationErrorView::UnpairedEndTag(
                name@,
            ),
            NormalizationError::EmptyTagNotSupported =>
                NormalizationErrorView::EmptyTagNotSupported,
        }
    }
}

/// What is known after the events from some position on were looked at,
/// from the last one backwards.
pub struct Normalizing {
    /// What those events become.
    pub out: Seq<EventView>,
    /// The names of the end tags whose start tag was not seen yet; the
    /// last one belongs to the element that is closed first.
    pub stack: Seq<Seq<char>>,
    /// Where in `out` the end tag of the next start tag goes, if it is
    /// left out: before the tag that follows the start tag, and before
    /// the blank text that stands before that tag.
    pub insertion_point: int,
    /// Where in `out` the end tag of the next start tag goes if an XML
    /// empty element was closed: after the closing.
    pub xml_end: Option<int>,
}

/// The position one further, if there is one.
pub open spec fn shifted(position: Option<int>) -> Option<int> {
    match position {
        Some(p) => Some(p + 1),
        None => None,
    }
}

/// What is known after the event `e` that stands before the events that
/// `st` is about.
///
/// * A start tag that the name of the last end tag matches is paired with
///   that end tag. Any other start tag gets an end tag of its own, at the
///   insertion point. The insertion point for the start tag before it is
///   the position of this start tag.
/// * The closing of an XML empty element becomes the closing of a start
///   tag, and the start tag gets its end tag right after it.
/// * An end tag waits for its start tag, and is the next insertion point.
/// * Blank text right before the insertion point moves the insertion
///   point before it.
pub open spec fn normalize_step(e: EventView, st: Normalizing) -> Normalizing {
    match e {
        EventView::OpenStartTag { name } => {
            let paired = st.xml_end is None && st.stack.len() > 0 && st.stack.last() == name;
            let at = match st.xml_end {
                Some(x) => x,
                None => st.insertion_point,
            };
            Normalizing {
                out: seq![e] + (if paired {
                    st.out
                } else {
                    st.out.insert(at, EventView::EndTag { name })
                }),
                stack: if paired {
                    st.stack.drop_last()
                } else {
                    st.stack
                },
                insertion_point: 0,
                xml_end: None,
            }
        },
        EventView::XmlCloseEmptyElement => Normalizing {
            out: seq![EventView::CloseStartTag] + st.out,
            stack: st.stack,
            insertion_point: st.insertion_point + 1,
            xml_end: Some(1),
        },
        EventView::EndTag { name } => Normalizing {
            out: seq![e] + st.out,
            stack: st.stack.push(name),
            insertion_point: 0,
            xml_end: shifted(st.xml_end),
        },
        EventView::Character(text) => Normalizing {
            out: seq![e] + st.out,
            stack: st.stack,
            insertion_point: if st.insertion_point == 0 && spec_is_blank(text) {
                0
            } else {
                st.insertion_point + 1
            },
            xml_end: shifted(st.xml_end),
        },
        _ => Normalizing {
            out: seq![e] + st.out,
            stack: st.stack,
            insertion_point: st.insertion_point + 1,
            xml_end: shifted(st.xml_end),
        },
    }
}

/// What is known after the events from the position `i` on were looked
/// at, from the last one backwards.
pub open spec fn normalizing(events: Seq<EventView>, i: int) -> Normalizing
    decreases events.len() - i,
{
    if i < 0 || i >= events.len() {
        Normalizing { out: Seq::empty(), stack: Seq::empty(), insertion_point: 0, xml_end: None }
    } else {
        normalize_step(events[i], normalizing(events, i + 1))
    }
}

/// Whether the event is an empty start tag (`<>`) or end tag (`</>`).
pub open spec fn is_empty_tag(e: EventView) -> bool {
    match e {
        EventView::OpenStartTag { name } => name.len() == 0,
        EventView::EndTag { name } => name.len() == 0,
        _ => false,
    }
}

/// The events with the end tags that were left out, under the assumption
/// that end tags are only left out after text-only content.
///
/// It is an error if there is an empty start or end tag; if there is
/// none, it is an error if an end tag is left without a start tag, and
/// the error names the first such end tag.
pub open spec fn with_end_tags(events: Seq<EventView>) -> Result<
    Seq<EventView>,
    NormalizationErrorView,
> {
    if exists|i: int| 0 <= i < events.len() && is_empty_tag(#[trigger] events[i]) {
        Err(NormalizationErrorView::EmptyTagNotSupported)
    } else {
        let st = normalizing(events, 0);
        if st.stack.len() > 0 {
            Err(NormalizationErrorView::UnpairedEndTag(st.stack.last()))
        } else {
            Ok(st.out)
        }
    }
}

/// What normalization yielded, in the terms of specifications.
pub open spec fn normalization_view(r: Result<SgmlFragment, NormalizationError>) -> Result<
    Seq<EventView>,
    NormalizationErrorView,
> {
    match r {
        Ok(fragment) => Ok(fragment@),
        Err(e) => Err(e@),
    }
}

/// The names of strings, as sequences of characters.
pub open spec fn names(stack: Seq<String>) -> Seq<Seq<char>> {
    Seq::new(stack.len(), |i: int| stack[i]@)
}

/// The events in reverse order.
fn reversed(events: Vec<SgmlEvent>) -> (r: Vec<SgmlEvent>)
    ensures
        views(r@) == views(events@).reverse(),
{
    let mut events = events;
    let ghost given = events@;
    let mut r: Vec<SgmlEvent> = Vec::new();
    let n = events.len();
    while events.len() > 0
        invariant
            events@ == given.take(events@.len() as int),
            events@.len() <= given.len(),
            n == given.len(),
            r@.len() == n - events@.len(),
            forall|k: int| 0 <= k < r@.len() ==> r@[k] == given[n - 1 - k],
        decreases events@.len(),
    {
        let e = events.pop().unwrap();
        assert(events@ == given.take(events@.len() as int));
        r.push(e);
    }
    assert(views(r@) =~= views(given).reverse());
    r
}

/// Inserts omitted end tags, assuming they are only implied for text-only content.
///
/// This is good enough for certain formats, like [OFX] 1.x, but not for others, e.g. [HTML].
///
/// # Notes
///
/// * Tag names are compared in a case-sensitive manner; if your data may mix cases,
///   you can configure your parser with [`lowercase_names`] or [`uppercase_names`] beforehand.
/// * This transform does not support empty start tags (`<>`) or empty end tags (`</>`).
///
/// [OFX]: https://en.wikipedia.org/wiki/Open_Financial_Exchange
/// [HTML]: https://en.wikipedia.org/wiki/HTML
/// [`lowercase_names`]: crate::parser::ParserBuilder::lowercase_names
/// [`uppercase_names`]: crate::parser::ParserBuilder::uppercase_names
#[verifier::loop_isolation(false)]
pub fn normalize_end_tags(fragment: SgmlFragment) -> (r: Result<SgmlFragment, NormalizationError>)
    ensures
        normalization_view(r) == with_end_tags(fragment@),
        start_tags_closed(fragment@) ==> (r matches Ok(normalized) ==> well_nested(normalized@)),
{
    let ghost all = fragment@;
    proof {
        if start_tags_closed(all) && with_end_tags(all) is Ok {
            lemma_normalized_is_well_nested(all);
        }
    }
    let mut events = fragment.events;
    let ghost given = events@;
    // what the events that were looked at become, in reverse order
    let mut rev: Vec<SgmlEvent> = Vec::new();
    let mut stack: Vec<String> = Vec::new();
    let mut next_insertion_point: usize = 0;
    let mut end_xml_empty_element: Option<usize> = None;
    proof {
        assert(views(rev@).reverse() =~= Seq::<EventView>::empty());
        assert(names(stack@) =~= Seq::<Seq<char>>::empty());
    }
    while events.len() > 0
        invariant
            all == views(given),
            events@ == given.take(events@.len() as int),
            events@.len() <= given.len(),
            forall|j: int| events@.len() <= j < all.len() ==> !is_empty_tag(#[trigger] all[j]),
            views(rev@).reverse() == normalizing(all, events@.len() as int).out,
            names(stack@) == normalizing(all, events@.len() as int).stack,
            next_insertion_point == normalizing(all, events@.len() as int).insertion_point,
            match end_xml_empty_element {
                Some(x) => normalizing(all, events@.len() as int).xml_end == Some(x as int) && x
                    <= rev@.len(),
                None => normalizing(all, events@.len() as int).xml_end is None,
            },
            next_insertion_point <= rev@.len(),
        decreases events@.len(),
    {
        let ghost i = events@.len() - 1;
        let ghost st = normalizing(all, i + 1);
        let event = events.pop().unwrap();
        proof {
            assert(events@ == given.take(i));
            assert(event@ == all[i]);
            assert(normalizing(all, i) == normalize_step(all[i], st));
        }
        match event {
            SgmlEvent::OpenStartTag { name } => {
                if name.as_str().unicode_len() == 0 {
                    assert(is_empty_tag(all[i]));
                    return Err(NormalizationError::EmptyTagNotSupported);
                }
                let insertion_point = match end_xml_empty_element {
                    Some(x) => Some(x),
                    None => {
                        if stack.len() > 0 && stack[stack.len() - 1] == name {
                            let ghost before = stack@;
                            stack.pop();
                            assert(names(stack@) =~= names(before).drop_last());
                            None
                        } else {
                            Some(next_insertion_point)
                        }
                    },
                };
                end_xml_empty_element = None;
                match insertion_point {
                    Some(at) => {
                        let end = SgmlEvent::EndTag { name: name.clone() };
                        let ghost before = rev@;
                        rev.insert(rev.len() - at, end);
                        proof {
                            lemma_reverse_insert(before, at as int, end);
                        }
                    },
                    None => {},
                }
                let open = SgmlEvent::OpenStartTag { name };
                proof {
                    lemma_reverse_push(rev@, open);
                }
                rev.push(open);
                next_insertion_point = 0;
            },
            SgmlEvent::XmlCloseEmptyElement => {
                proof {
                    lemma_reverse_push(rev@, SgmlEvent::CloseStartTag);
                }
                rev.push(SgmlEvent::CloseStartTag);
                let grown = rev.len();
                next_insertion_point += 1;
                end_xml_empty_element = Some(1);
            },
            SgmlEvent::EndTag { name } => {
                if name.as_str().unicode_len() == 0 {
                    assert(is_empty_tag(all[i]));
                    return Err(NormalizationError::EmptyTagNotSupported);
                }
                let ghost before = stack@;
                stack.push(name.clone());
                assert(names(stack@) =~= names(before).push(name@));
                let end = SgmlEvent::EndTag { name };
                proof {
                    lemma_reverse_push(rev@, end);
                }
                rev.push(end);
                let grown = rev.len();
                next_insertion_point = 0;
                end_xml_empty_element = match end_xml_empty_element {
                    Some(x) => Some(x + 1),
                    None => None,
                };
            },
            SgmlEvent::Character(text) => {
                let moves = next_insertion_point == 0 && is_blank(text.as_str());
                let event = SgmlEvent::Character(text);
                proof {
                    lemma_reverse_push(rev@, event);
                }
                rev.push(event);
                let grown = rev.len();
                if !moves {
                    next_insertion_point += 1;
                }
                end_xml_empty_element = match end_xml_empty_element {
                    Some(x) => Some(x + 1),
                    None => None,
                };
            },
            other => {
                proof {
                    lemma_reverse_push(rev@, other);
                }
                rev.push(other);
                let grown = rev.len();
                next_insertion_point += 1;
                end_xml_empty_element = match end_xml_empty_element {
                    Some(x) => Some(x + 1),
                    None => None,
                };
            },
        }
    }
    if stack.len() > 0 {
        let name = stack[stack.len() - 1].clone();
        assert(names(stack@).last() == name@);
        return Err(NormalizationError::UnpairedEndTag(name));
    }
    Ok(SgmlFragment { events: reversed(rev) })
}

/// An event put after events in reverse order comes first in order.
proof fn lemma_reverse_push(rev: Seq<SgmlEvent>, e: SgmlEvent)
    ensures
        views(rev.push(e)).reverse() == seq![e@] + views(rev).reverse(),
{
    assert(views(rev.push(e)).reverse() =~= seq![e@] + views(rev).reverse());
}

/// An event inserted `at` positions before the end of events in reverse
/// order is inserted at the position `at` in order.
proof fn lemma_reverse_insert(rev: Seq<SgmlEvent>, at: int, e: SgmlEvent)
    requires
        0 <= at <= rev.len(),
    ensures
        views(rev.insert(rev.len() - at, e)).reverse() == views(rev).reverse().insert(at, e@),
{
    let a = views(rev.insert(rev.len() - at, e)).reverse();
    let b = views(rev).reverse().insert(at, e@);
    let n = rev.len() as int;
    assert(rev.insert(n - at, e).len() == n + 1);
    assert(a.len() == n + 1);
    assert(b.len() == n + 1);
    assert forall|k: int| 0 <= k < n + 1 implies a[k] == b[k] by {
        let j = n - k;
        // a[k] is the event at n - k of the events with the insertion
        assert(a[k] == rev.insert(n - at, e)[j]@);
        if k < at {
            assert(rev.insert(n - at, e)[j] == rev[j - 1]);
        } else if k == at {
            assert(rev.insert(n - at, e)[j] == e);
        } else {
            assert(rev.insert(n - at, e)[j] == rev[j]);
        }
    }
    assert(a =~= b);
}

/// Whether the event opens or closes an element.
pub open spec fn is_tag(e: EventView) -> bool {
    e is OpenStartTag || e is EndTag
}

/// The names of the elements that are open after the events, where
/// those of `stack` are open before them, the last one innermost: a start
/// tag opens an element, and an end tag closes the innermost one, whose
/// name it must have. `None` where an end tag closes no element or
/// another than the innermost.
pub open spec fn open_elements(events: Seq<EventView>, stack: Seq<Seq<char>>) -> Option<
    Seq<Seq<char>>,
>
    decreases events.len(),
{
    if events.len() == 0 {
        Some(stack)
    } else {
        match events[0] {
            EventView::OpenStartTag { name } => open_elements(
                events.drop_first(),
                stack.push(name),
            ),
            EventView::EndTag { name } => if stack.len() > 0 && stack.last() == name {
                open_elements(events.drop_first(), stack.drop_last())
            } else {
                None
            },
            _ => open_elements(events.drop_first(), stack),
        }
    }
}

/// Every start tag of the events has its end tag at the same depth of
/// nesting, and no element is left open at the end.
pub open spec fn well_nested(events: Seq<EventView>) -> bool {
    open_elements(events, Seq::empty()) == Some(Seq::<Seq<char>>::empty())
}

/// Events that open and close no element leave the open elements as they
/// are.
pub proof fn lemma_open_elements_skip(
    pre: Seq<EventView>,
    rest: Seq<EventView>,
    stack: Seq<Seq<char>>,
)
    requires
        forall|k: int| 0 <= k < pre.len() ==> !is_tag(#[trigger] pre[k]),
    ensures
        open_elements(pre + rest, stack) == open_elements(rest, stack),
    decreases pre.len(),
{
    if pre.len() == 0 {
        assert(pre + rest == rest);
    } else {
        assert((pre + rest)[0] == pre[0]);
        assert((pre + rest).drop_first() == pre.drop_first() + rest);
        assert forall|k: int| 0 <= k < pre.drop_first().len() implies !is_tag(
            #[trigger] pre.drop_first()[k],
        ) by {
            assert(pre.drop_first()[k] == pre[k + 1]);
        }
        lemma_open_elements_skip(pre.drop_first(), rest, stack);
    }
}

/// A start tag, and its end tag after events that open and close no
/// element, leave the open elements as they are.
pub proof fn lemma_open_elements_inserted(
    out: Seq<EventView>,
    at: int,
    name: Seq<char>,
    stack: Seq<Seq<char>>,
)
    requires
        0 <= at <= out.len(),
        forall|k: int| 0 <= k < at ==> !is_tag(#[trigger] out[k]),
    ensures
        open_elements(
            seq![EventView::OpenStartTag { name }] + out.insert(at, EventView::EndTag { name }),
            stack,
        ) == open_elements(out, stack),
{
    let open = EventView::OpenStartTag { name };
    let end = EventView::EndTag { name };
    let pre = out.subrange(0, at);
    let post = out.subrange(at, out.len() as int);
    let inner = out.insert(at, end);
    assert(inner == pre + (seq![end] + post));
    assert((seq![open] + inner)[0] == open);
    assert((seq![open] + inner).drop_first() == inner);
    lemma_open_elements_skip(pre, seq![end] + post, stack.push(name));
    assert((seq![end] + post)[0] == end);
    assert((seq![end] + post).drop_first() == post);
    assert(stack.push(name).drop_last() == stack);
    lemma_open_elements_skip(pre, post, stack);
    assert(pre + post == out);
}

/// What stands before an attribute or the closing of a start tag, in
/// events whose start tags are closed: the opening of the start tag or an
/// attribute.
pub proof fn lemma_inside_start_tag(events: Seq<EventView>, j: int)
    requires
        tag_state(events) is Some,
        0 <= j < events.len(),
        events[j] is Attribute || events[j] is XmlCloseEmptyElement || events[j] is CloseStartTag,
    ensures
        j >= 1,
        events[j - 1] is OpenStartTag || events[j - 1] is Attribute,
    decreases events.len(),
{
    if j == events.len() - 1 {
        let before = events.drop_last();
        assert(tag_state(before) == Some(true));
        if before.len() > 0 {
            assert(before.last() == events[j - 1]);
        }
    } else {
        assert(events.drop_last()[j] == events[j]);
        lemma_inside_start_tag(events.drop_last(), j);
        assert(events.drop_last()[j - 1] == events[j - 1]);
    }
}

/// What holds of what is known after the events from `i` on were looked
/// at, where the start tags of the events are closed.
pub open spec fn normalizing_invariant(events: Seq<EventView>, i: int) -> bool {
    let st = normalizing(events, i);
    &&& open_elements(st.out, st.stack) == Some(Seq::<Seq<char>>::empty())
    &&& 0 <= st.insertion_point <= st.out.len()
    &&& forall|k: int| 0 <= k < st.insertion_point ==> !is_tag(#[trigger] st.out[k])
    &&& st.xml_end matches Some(x) ==> {
        &&& 1 <= x <= st.out.len()
        &&& forall|k: int| 0 <= k < x ==> !is_tag(#[trigger] st.out[k])
        &&& 0 <= i < events.len()
        &&& (events[i] is XmlCloseEmptyElement || events[i] is Attribute)
    }
}

/// The invariant of normalization holds at every position.
pub proof fn lemma_normalizing(events: Seq<EventView>, i: int)
    requires
        start_tags_closed(events),
        0 <= i <= events.len(),
    ensures
        normalizing_invariant(events, i),
    decreases events.len() - i,
{
    let st = normalizing(events, i);
    if i == events.len() {
        assert(st.out.len() == 0);
    } else {
        lemma_normalizing(events, i + 1);
        let prev = normalizing(events, i + 1);
        let e = events[i];
        assert(st == normalize_step(e, prev));
        if prev.xml_end is Some {
            lemma_inside_start_tag(events, i + 1);
        }
        match e {
            EventView::OpenStartTag { name } => {
                let paired = prev.xml_end is None && prev.stack.len() > 0 && prev.stack.last()
                    == name;
                if paired {
                    assert(st.out[0] == e);
                    assert(st.out.drop_first() == prev.out);
                    assert(prev.stack.drop_last().push(name) == prev.stack);
                } else {
                    let at = match prev.xml_end {
                        Some(x) => x,
                        None => prev.insertion_point,
                    };
                    lemma_open_elements_inserted(prev.out, at, name, prev.stack);
                }
            },
            EventView::EndTag { name } => {
                assert(st.out[0] == e);
                assert(st.out.drop_first() == prev.out);
                assert(prev.stack.push(name).drop_last() == prev.stack);
            },
            _ => {
                assert(st.out[0] == if e is XmlCloseEmptyElement {
                    EventView::CloseStartTag
                } else {
                    e
                });
                assert(st.out.drop_first() == prev.out);
                assert forall|k: int| 0 <= k < st.insertion_point implies !is_tag(
                    #[trigger] st.out[k],
                ) by {
                    if k > 0 {
                        assert(st.out[k] == prev.out[k - 1]);
                    }
                }
                if st.xml_end is Some {
                    let x = st.xml_end->Some_0;
                    assert forall|k: int| 0 <= k < x implies !is_tag(#[trigger] st.out[k]) by {
                        if k > 0 {
                            assert(st.out[k] == prev.out[k - 1]);
                        }
                    }
                }
            },
        }
    }
}

/// After normalization, every start tag has its end tag at the same
/// depth of nesting, and no element is left open at the end of the
/// fragment: this holds of the events that normalization yields for
/// events whose start tags are closed, as those of a parsed document are.
pub proof fn lemma_normalized_is_well_nested(events: Seq<EventView>)
    requires
        start_tags_closed(events),
        with_end_tags(events) is Ok,
    ensures
        well_nested(with_end_tags(events)->Ok_0),
{
    lemma_normalizing(events, 0);
    let st = normalizing(events, 0);
    assert(st.stack == Seq::<Seq<char>>::empty());
}

} // verus!
