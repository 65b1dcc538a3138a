//! The list of events that a parse yields.

use vstd::prelude::*;

use crate::chars::push_char;
use crate::chars::substring;
use crate::entities::expand_entities;
use crate::entities::expansion;
use crate::entities::EntityError;
use crate::entities::EntityTable;
use crate::entities::ReferenceKind;
use crate::chars::to_chars;
use crate::event::lemma_views_push;
use crate::parser::config::NameNormalization;
use crate::text::trim_range;
use crate::text::trimmed;
use crate::transforms::normalize_end_tags::normalization_view;
use crate::transforms::normalize_end_tags::with_end_tags;
use crate::transforms::NormalizationError;
use crate::event::display_events;
use crate::event::views;
use crate::event::EventView;
use crate::event::SgmlEvent;

verus! {

/// A list of events from a parsed SGML document.
///
/// An event represents a certain sequence of tokens in the SGML file, like the
/// opening of a tag, or a piece of text data.
///
/// Working directly with events is not very practical; they are mainly meant
/// for applying transforms before being used for deserialization.
#[derive(Clone, Debug, Eq, PartialEq)]
pub struct SgmlFragment {
    pub events: Vec<SgmlEvent>,
}

impl View for SgmlFragment {
    type V = Seq<EventView>;

    open spec fn view(&self) -> Seq<EventView> {
        views(self.events@)
    }
}

/// The event with its name normalized, if it has one: the names of start
/// tags, of attributes and of end tags that are not empty.
pub open spec fn with_normalized_name(e: EventView, normalization: NameNormalization) -> EventView {
    match e {
        EventView::OpenStartTag { name } => EventView::OpenStartTag {
            name: normalization.normalized(name),
        },
        EventView::EndTag { name } => EventView::EndTag { name: normalization.normalized(name) },
        EventView::Attribute { name, value } => EventView::Attribute {
            name: normalization.normalized(name),
            value,
        },
        _ => e,
    }
}

/// The events with the text of each `Character` event trimmed, and
/// without those whose text is empty then. Attribute values are kept as
/// they are.
pub open spec fn with_trimmed_text(events: Seq<EventView>) -> Seq<EventView>
    decreases events.len(),
{
    if events.len() == 0 {
        Seq::empty()
    } else {
        with_trimmed_text(events.drop_last()) + (match events.last() {
            EventView::Character(text) => if trimmed(text).len() == 0 {
                Seq::empty()
            } else {
                seq![EventView::Character(trimmed(text))]
            },
            e => seq![e],
        })
    }
}

/// The event with the references in its character data expanded: in the
/// text of a `Character` event and in the value of an attribute. Where an
/// entity is not defined, its name.
pub open spec fn with_expanded_data(e: EventView, table: Seq<(Seq<char>, Seq<char>)>) -> Result<
    EventView,
    Seq<char>,
> {
    match e {
        EventView::Character(text) => match expansion(text, ReferenceKind::General, table) {
            Ok(text) => Ok(EventView::Character(text)),
            Err(name) => Err(name),
        },
        EventView::Attribute { name, value: Some(value) } => match expansion(
            value,
            ReferenceKind::General,
            table,
        ) {
            Ok(value) => Ok(EventView::Attribute { name, value: Some(value) }),
            Err(name) => Err(name),
        },
        _ => Ok(e),
    }
}

/// The events with the references in their character data expanded, or
/// the name of the first entity that is referred to and not defined.
pub open spec fn with_expanded_entities(
    events: Seq<EventView>,
    table: Seq<(Seq<char>, Seq<char>)>,
) -> Result<Seq<EventView>, Seq<char>>
    decreases events.len(),
{
    if events.len() == 0 {
        Ok(Seq::empty())
    } else {
        match with_expanded_entities(events.drop_last(), table) {
            Err(name) => Err(name),
            Ok(before) => match with_expanded_data(events.last(), table) {
                Ok(e) => Ok(before.push(e)),
                Err(name) => Err(name),
            },
        }
    }
}

/// What the expansion of the references of a fragment yielded, in the
/// terms of specifications.
pub open spec fn expansion_view(r: Result<SgmlFragment, EntityError>) -> Result<
    Seq<EventView>,
    Seq<char>,
> {
    match r {
        Ok(fragment) => Ok(fragment@),
        Err(e) => Err(e.0@),
    }
}

/// Whether the event `new` is the event `old` with its identifier, if it
/// has one, replaced by what `f` returned for it: the names of start
/// tags, of attributes and of end tags that are not empty are
/// identifiers.
pub open spec fn identifier_mapped<F: Fn(String) -> String>(
    f: F,
    old: SgmlEvent,
    new: SgmlEvent,
) -> bool {
    match old {
        SgmlEvent::OpenStartTag { name } => new matches SgmlEvent::OpenStartTag { name: mapped }
            && call_ensures(f, (name,), mapped),
        SgmlEvent::EndTag { name } => if name@.len() == 0 {
            new == old
        } else {
            new matches SgmlEvent::EndTag { name: mapped } && call_ensures(f, (name,), mapped)
        },
        SgmlEvent::Attribute { name, value } => new matches SgmlEvent::Attribute {
            name: mapped,
            value: kept,
        } && call_ensures(f, (name,), mapped) && kept == value,
        _ => new == old,
    }
}

impl SgmlFragment {
    /// Calls a closure on every identifier (tag name and attribute key),
    /// returning a new `SgmlFragment` with the returned replacements.
    pub fn map_identifiers<F: Fn(String) -> String>(self, f: F) -> (r: SgmlFragment)
        requires
            forall|name: String| call_requires(f, (name,)),
        ensures
            r.events@.len() == self.events@.len(),
            forall|i: int|
                0 <= i < self.events@.len() ==> identifier_mapped(
                    f,
                    #[trigger] self.events@[i],
                    r.events@[i],
                ),
    {
        let mut result: Vec<SgmlEvent> = Vec::new();
        let mut i: usize = 0;
        while i < self.events.len()
            invariant
                i <= self.events@.len(),
                result@.len() == i,
                forall|name: String| call_requires(f, (name,)),
                forall|j: int|
                    0 <= j < i ==> identifier_mapped(f, #[trigger] self.events@[j], result@[j]),
            decreases self.events@.len() - i,
        {
            let event = match &self.events[i] {
                SgmlEvent::OpenStartTag { name } => SgmlEvent::OpenStartTag {
                    name: f(name.clone()),
                },
                SgmlEvent::EndTag { name } => {
                    if name.as_str().unicode_len() == 0 {
                        SgmlEvent::EndTag { name: name.clone() }
                    } else {
                        SgmlEvent::EndTag { name: f(name.clone()) }
                    }
                },
                SgmlEvent::Attribute { name, value } => SgmlEvent::Attribute {
                    name: f(name.clone()),
                    value: crate::event::clone_option(value),
                },
                other => other.duplicate(),
            };
            result.push(event);
            i += 1;
        }
        SgmlFragment { events: result }
    }

    /// Expands entity references (`&foo;`) as well as character references (`&#123;`)
    /// in the content: in the text of `Character` events and in the values
    /// of attributes.
    ///
    /// Fails if an entity is referred to that the definitions do not
    /// hold. Character references (`&#123;`) are expanded without going
    /// through the definitions.
    pub fn expand_entities(self, entities: &EntityTable) -> (r: Result<SgmlFragment, EntityError>)
        ensures
            expansion_view(r) == with_expanded_entities(self@, entities@),
    {
        let mut result: Vec<SgmlEvent> = Vec::new();
        let mut i: usize = 0;
        assert(self@.take(0) == Seq::<EventView>::empty());
        assert(views(result@) =~= Seq::<EventView>::empty());
        while i < self.events.len()
            invariant
                i <= self.events@.len(),
                with_expanded_entities(self@.take(i as int), entities@) == Ok::<_, Seq<char>>(
                    views(result@),
                ),
            decreases self.events@.len() - i,
        {
            proof {
                let next = self@.take(i + 1);
                assert(next.drop_last() == self@.take(i as int));
                assert(next.last() == self.events@[i as int]@);
            }
            let event = match &self.events[i] {
                SgmlEvent::Character(text) => match expand_entities(text.as_str(), entities) {
                    Ok(text) => SgmlEvent::Character(text),
                    Err(e) => {
                        proof {
                            lemma_expansion_fails(self@, i + 1, entities@);
                        }
                        return Err(e);
                    },
                },
                SgmlEvent::Attribute { name, value: Some(value) } => match expand_entities(
                    value.as_str(),
                    entities,
                ) {
                    Ok(value) => SgmlEvent::Attribute { name: name.clone(), value: Some(value) },
                    Err(e) => {
                        proof {
                            lemma_expansion_fails(self@, i + 1, entities@);
                        }
                        return Err(e);
                    },
                },
                other => other.duplicate(),
            };
            proof {
                lemma_views_push(result@, event);
            }
            result.push(event);
            i += 1;
        }
        assert(self@.take(self@.len() as int) == self@);
        Ok(SgmlFragment { events: result })
    }

    /// Expands character references (`&#123;`) in the content.
    /// Any entity references are treated as errors.
    pub fn expand_character_references(self) -> (r: Result<SgmlFragment, EntityError>)
        ensures
            expansion_view(r) == with_expanded_entities(
                self@,
                Seq::<(Seq<char>, Seq<char>)>::empty(),
            ),
    {
        let entities = EntityTable::new();
        self.expand_entities(&entities)
    }

    /// Inserts omitted end tags, assuming they are only implied for text-only content.
    ///
    /// See [`normalize_end_tags`](crate::transforms::normalize_end_tags).
    pub fn normalize_end_tags(self) -> (r: Result<SgmlFragment, NormalizationError>)
        ensures
            normalization_view(r) == with_end_tags(self@),
            crate::event::start_tags_closed(self@) ==> (r matches Ok(normalized)
                ==> crate::transforms::normalize_end_tags::well_nested(normalized@)),
    {
        crate::transforms::normalize_end_tags::normalize_end_tags(self)
    }

    /// Normalizes all identifiers (tag names and attribute keys) as the
    /// normalization says; character data, markup declarations and
    /// processing instructions are not affected.
    pub fn normalize_identifiers(self, normalization: NameNormalization) -> (r: SgmlFragment)
        ensures
            r@ == Seq::new(self@.len(), |i: int| with_normalized_name(self@[i], normalization)),
    {
        let mut events = self.events;
        let ghost given = views(events@);
        let mut i: usize = 0;
        while i < events.len()
            invariant
                i <= events@.len(),
                events@.len() == given.len(),
                forall|j: int|
                    0 <= j < i ==> (#[trigger] events@[j])@ == with_normalized_name(
                        given[j],
                        normalization,
                    ),
                forall|j: int| i <= j < events@.len() ==> (#[trigger] events@[j])@ == given[j],
            decreases events@.len() - i,
        {
            let changed = match &events[i] {
                SgmlEvent::OpenStartTag { name } => Some(
                    SgmlEvent::OpenStartTag { name: normalization.normalize(name.clone()) },
                ),
                SgmlEvent::EndTag { name } => Some(
                    SgmlEvent::EndTag { name: normalization.normalize(name.clone()) },
                ),
                SgmlEvent::Attribute { name, value } => Some(
                    SgmlEvent::Attribute {
                        name: normalization.normalize(name.clone()),
                        value: crate::event::clone_option(value),
                    },
                ),
                _ => None,
            };
            match changed {
                Some(event) => {
                    events.set(i, event);
                },
                None => {},
            }
            i += 1;
        }
        let r = SgmlFragment { events };
        assert(r@ =~= Seq::new(self@.len(), |i: int| with_normalized_name(self@[i], normalization)));
        r
    }

    /// Normalizes all identifiers (tag names and attribute keys) as ASCII lowercase.
    /// Character data, markup declarations and processing instructions are not affected.
    pub fn lowercase_identifiers(self) -> (r: SgmlFragment)
        ensures
            r@ == Seq::new(
                self@.len(),
                |i: int| with_normalized_name(self@[i], NameNormalization::ToLowercase),
            ),
    {
        self.normalize_identifiers(NameNormalization::ToLowercase)
    }

    /// Normalizes all identifiers (tag names and attribute keys) as ASCII uppercase.
    /// Character data, markup declarations and processing instructions are not affected.
    pub fn uppercase_identifiers(self) -> (r: SgmlFragment)
        ensures
            r@ == Seq::new(
                self@.len(),
                |i: int| with_normalized_name(self@[i], NameNormalization::ToUppercase),
            ),
    {
        self.normalize_identifiers(NameNormalization::ToUppercase)
    }

    /// Removes leading and trailing spaces from the character data.
    /// Events that are empty then are removed. Attribute values are not
    /// trimmed.
    pub fn trim_spaces(self) -> (r: SgmlFragment)
        ensures
            r@ == with_trimmed_text(self@),
    {
        let mut result: Vec<SgmlEvent> = Vec::new();
        let mut i: usize = 0;
        assert(self@.take(0) == Seq::<EventView>::empty());
        assert(views(result@) =~= Seq::<EventView>::empty());
        while i < self.events.len()
            invariant
                i <= self.events@.len(),
                views(result@) == with_trimmed_text(self@.take(i as int)),
            decreases self.events@.len() - i,
        {
            proof {
                let next = self@.take(i + 1);
                assert(next.drop_last() == self@.take(i as int));
                assert(next.last() == self.events@[i as int]@);
            }
            match &self.events[i] {
                SgmlEvent::Character(text) => {
                    let chars = to_chars(text.as_str());
                    let (a, b) = trim_range(chars.as_slice(), 0, chars.len());
                    if a < b {
                        let event = SgmlEvent::Character(substring(chars.as_slice(), a, b));
                        proof {
                            lemma_views_push(result@, event);
                            assert(views(result@).push(event@) == views(result@) + seq![event@]);
                        }
                        result.push(event);
                    } else {
                        assert(views(result@) + Seq::<EventView>::empty() == views(result@));
                    }
                },
                other => {
                    let event = other.duplicate();
                    proof {
                        lemma_views_push(result@, event);
                        assert(views(result@).push(event@) == views(result@) + seq![event@]);
                    }
                    result.push(event);
                },
            }
            i += 1;
        }
        assert(self@.take(self@.len() as int) == self@);
        SgmlFragment { events: result }
    }

    /// Returns the number of events in the list.
    pub fn len(&self) -> (n: usize)
        ensures
            n == self@.len(),
    {
        self.events.len()
    }

    /// Views the fragment as a slice of events.
    pub fn as_slice(&self) -> (s: &[SgmlEvent])
        ensures
            s@ == self.events@,
    {
        self.events.as_slice()
    }

    /// Returns an iterator over references to events.
    pub fn iter(&self) -> (r: std::slice::Iter<'_, SgmlEvent>)
        ensures
            vstd::std_specs::iter::IteratorSpec::remaining(&r) == self.events@.as_ref(),
    {
        broadcast use vstd::std_specs::slice::axiom_spec_slice_iter;

        self.events.as_slice().iter()
    }

    /// Converts the fragment into a [`Vec`] of events.
    pub fn into_vec(self) -> (v: Vec<SgmlEvent>)
        ensures
            v == self.events,
    {
        self.events
    }

    /// Detaches the fragment from the source string. Events of this library
    /// always own their strings, so this is the fragment itself.
    pub fn into_owned(self) -> (r: SgmlFragment)
        ensures
            r == self,
    {
        self
    }

    /// The SGML text that the fragment is written as: each event in turn,
    /// with a space before each attribute.
    pub fn to_string(&self) -> (s: String)
        ensures
            s@ == display_events(self@),
    {
        let mut s = String::new();
        let mut i: usize = 0;
        assert(self@.take(0) == Seq::<EventView>::empty());
        while i < self.events.len()
            invariant
                i <= self.events@.len(),
                s@ == display_events(self@.take(i as int)),
            decreases self.events@.len() - i,
        {
            let event = &self.events[i];
            proof {
                let next = self@.take(i + 1);
                assert(next.drop_last() == self@.take(i as int));
                assert(next.last() == event@);
            }
            match event {
                SgmlEvent::Attribute { .. } => {
                    push_char(&mut s, ' ');
                },
                _ => {},
            }
            event.write_to(&mut s);
            i += 1;
        }
        assert(self@.take(self@.len() as int) == self@);
        s
    }
}

impl From<Vec<SgmlEvent>> for SgmlFragment {
    fn from(events: Vec<SgmlEvent>) -> (r: SgmlFragment) {
        SgmlFragment { events }
    }
}

impl vstd::std_specs::convert::FromSpecImpl<Vec<SgmlEvent>> for SgmlFragment {
    open spec fn obeys_from_spec() -> bool {
        true
    }

    open spec fn from_spec(events: Vec<SgmlEvent>) -> SgmlFragment {
        SgmlFragment { events }
    }
}

/// Where the expansion of the first events fails, that of all the events
/// fails in the same way.
pub proof fn lemma_expansion_fails(
    events: Seq<EventView>,
    n: int,
    table: Seq<(Seq<char>, Seq<char>)>,
)
    requires
        0 <= n <= events.len(),
        with_expanded_entities(events.take(n), table) is Err,
    ensures
        with_expanded_entities(events, table) == with_expanded_entities(events.take(n), table),
    decreases events.len() - n,
{
    if n == events.len() {
        assert(events.take(n) == events);
    } else {
        assert(events.take(n + 1).drop_last() == events.take(n));
        lemma_expansion_fails(events, n + 1, table);
    }
}

} // verus!
