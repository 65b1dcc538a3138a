//! The decisions of the deserializer where a map, a sequence or an enum
//! is asked for.
//!
//! The values themselves are built by whoever drives the deserializer:
//! these operations tell what comes next, and move the cursor.

use vstd::prelude::*;

use crate::chars::str_eq;
use crate::de::Cursor;
use crate::de::DeserializationError;
use crate::de::DeserializationErrorView;
use crate::de::SgmlDeserializer;
use crate::event::option_view;
use crate::event::push_text;
use crate::event::EventView;
use crate::event::SgmlEvent;
use crate::text::is_blank;
use crate::text::spec_is_blank;

verus! {

/// How the content of an element is read as the entries of a map.
#[derive(Clone, Copy, Debug, PartialEq, Eq)]
pub enum ContentStrategy {
    /// Element only contains text
    TextOnly,
    /// Treat element content as map entries
    ElementsAreMapEntries,
    /// Treat element content as the value for key `$value`
    ElementsAreDollarValue,
}

/// The state of reading an element as a map.
#[derive(Clone, Debug)]
pub struct MapAccess {
    /// The name of the element of the entry that was last announced.
    pub map_key: Option<String>,
    /// How the content of the element is read.
    pub content_strategy: ContentStrategy,
    /// The text of the element so far, where it is captured.
    pub text_content: Option<String>,
    /// Whether the entry that was last announced is the captured text.
    pub next_entry_is_dollarvalue: bool,
}

/// The mathematical value of a [`MapAccess`].
pub struct MapState {
    pub map_key: Option<Seq<char>>,
    pub content_strategy: ContentStrategy,
    pub text_content: Option<Seq<char>>,
    pub next_entry_is_dollarvalue: bool,
}

impl View for MapAccess {
    type V = MapState;

    open spec fn view(&self) -> MapState {
        MapState {
            map_key: option_view(self.map_key),
            content_strategy: self.content_strategy,
            text_content: option_view(self.text_content),
            next_entry_is_dollarvalue: self.next_entry_is_dollarvalue,
        }
    }
}

/// The field name under which a struct captures the content of its
/// element.
pub open spec fn dollar_value() -> Seq<char> {
    "$value"@
}

/// Where the value of a map entry comes from.
#[derive(Clone, Copy, Debug, PartialEq, Eq)]
pub enum ValueSource {
    /// From the text that was captured.
    CapturedText,
    /// From the attribute at the cursor.
    Attribute,
    /// From the element at the cursor.
    Element,
}

/// The state of reading elements as a sequence.
#[derive(Clone, Debug)]
pub struct SeqAccess {
    /// The name of the elements that make the sequence; any element does
    /// where there is none.
    pub tag_name: Option<String>,
}

/// The state of reading an enum.
#[derive(Clone, Copy, Debug, PartialEq, Eq)]
pub struct EnumAccess {
    /// Whether the name of the variant is the name of the tag at the
    /// cursor; else it is the text of the element.
    pub use_tag_name_for_variant: bool,
    /// Whether the enum stands inside of the element that the map key
    /// named.
    pub enum_within_element: bool,
}

/// The outcome of asking for the next key of a map: the states that it
/// leaves and the key, if there is one.
pub type KeyOutcome = (Cursor, MapState, Result<Option<Seq<char>>, DeserializationErrorView>);

impl Cursor {
    /// How the element is read as a map whose start tag was consumed:
    /// where the struct has no field `$value`, attributes and child
    /// elements are the entries; where it has one, the child elements are
    /// its values if the first tag after the event at the cursor opens
    /// one, and else the text of the element is.
    pub open spec fn map_state(self, emit_value: bool) -> MapState {
        let strategy = if emit_value {
            match self.content_type_from(self.cursor + 1, false) {
                Ok(content) => if content.contains_child_elements {
                    ContentStrategy::ElementsAreDollarValue
                } else {
                    ContentStrategy::TextOnly
                },
                Err(_) => ContentStrategy::TextOnly,
            }
        } else {
            ContentStrategy::ElementsAreMapEntries
        };
        MapState {
            map_key: None,
            content_strategy: strategy,
            text_content: if strategy == ContentStrategy::TextOnly {
                Some(Seq::empty())
            } else {
                None
            },
            next_entry_is_dollarvalue: false,
        }
    }

    /// The next key of the map.
    ///
    /// * At the end of the element (`EndTag` or `XmlCloseEmptyElement`)
    ///   there is no key, but for `$value` where text was captured.
    /// * An attribute gives its name.
    /// * The closing of the start tag is skipped.
    /// * A start tag gives its name, which is remembered as the tag that
    ///   is expected next; or `$value` where the child elements are the
    ///   values of that field. It is not supported where only text is
    ///   expected.
    /// * Text is consumed, and appended to the captured text if text is
    ///   captured.
    /// * Any other event is not supported.
    pub open spec fn next_key(self, map: MapState) -> KeyOutcome
        decreases self.events.len() - self.cursor,
    {
        if !self.has_event() {
            (self, map, Err(DeserializationErrorView::UnexpectedEof))
        } else {
            match self.current() {
                EventView::EndTag { .. } | EventView::XmlCloseEmptyElement => match map.text_content {
                    Some(_) => (
                        self,
                        MapState {
                            next_entry_is_dollarvalue: true,
                            map_key: Some(dollar_value()),
                            ..map
                        },
                        Ok(Some(dollar_value())),
                    ),
                    None => (self, map, Ok(None)),
                },
                EventView::Attribute { name, .. } => (self, map, Ok(Some(name))),
                EventView::CloseStartTag => {
                    let (next, advanced) = self.advance();
                    match advanced {
                        Err(e) => (next, map, Err(e)),
                        Ok(_) => if self.cursor < next.cursor <= self.events.len() && next.events
                            == self.events {
                            next.next_key(map)
                        } else {
                            (next, map, Ok(None))
                        },
                    }
                },
                EventView::OpenStartTag { name } => match map.content_strategy {
                    ContentStrategy::ElementsAreMapEntries => (
                        self,
                        MapState { map_key: Some(name), ..map },
                        Ok(Some(name)),
                    ),
                    ContentStrategy::ElementsAreDollarValue => (
                        self,
                        map,
                        Ok(Some(dollar_value())),
                    ),
                    ContentStrategy::TextOnly => (
                        self,
                        map,
                        Err(DeserializationErrorView::Unsupported(self.current())),
                    ),
                },
                EventView::Character(text) => {
                    let (next, advanced) = self.advance();
                    let map = MapState {
                        text_content: match map.text_content {
                            Some(so_far) => Some(so_far + text),
                            None => None,
                        },
                        ..map
                    };
                    match advanced {
                        Err(e) => (next, map, Err(e)),
                        Ok(_) => if self.cursor < next.cursor <= self.events.len() && next.events
                            == self.events {
                            next.next_key(map)
                        } else {
                            (next, map, Ok(None))
                        },
                    }
                },
                _ => (self, map, Err(DeserializationErrorView::Unsupported(self.current()))),
            }
        }
    }

    /// Where the value of the entry comes from whose key was announced.
    pub open spec fn value_source(self, map: MapState) -> ValueSource {
        if map.next_entry_is_dollarvalue {
            ValueSource::CapturedText
        } else if self.has_event() && self.current() is Attribute {
            ValueSource::Attribute
        } else {
            ValueSource::Element
        }
    }

    /// The state in which the value of the entry is read whose key was
    /// announced: the captured text is handed over, or the tag that is
    /// expected next.
    pub open spec fn before_value(self, map: MapState) -> (Cursor, MapState) {
        match self.value_source(map) {
            ValueSource::CapturedText => (
                Cursor {
                    accumulated_text: Some(
                        match map.text_content {
                            Some(text) => text,
                            None => Seq::empty(),
                        },
                    ),
                    ..self
                },
                MapState { text_content: None, ..map },
            ),
            ValueSource::Attribute => (self, map),
            ValueSource::Element => (
                Cursor { map_key: map.map_key, ..self },
                MapState { map_key: None, ..map },
            ),
        }
    }

    /// The state after the value of an entry was read.
    pub open spec fn after_value(self, source: ValueSource) -> Cursor {
        match source {
            ValueSource::CapturedText => Cursor { accumulated_text: None, ..self },
            ValueSource::Attribute => self,
            ValueSource::Element => Cursor { map_key: None, ..self },
        }
    }

    /// Whether the sequence of the elements named `tag_name`, or of any
    /// elements where there is no name, has a next element: blank text is
    /// skipped, and a start tag of that name must follow.
    pub open spec fn next_element(self, tag_name: Option<Seq<char>>) -> (
        Cursor,
        Result<bool, DeserializationErrorView>,
    )
        decreases self.events.len() - self.cursor,
    {
        if !self.has_event() {
            (self, Err(DeserializationErrorView::UnexpectedEof))
        } else {
            match self.current() {
                EventView::OpenStartTag { name } => if tag_name is Some && tag_name != Some(name) {
                    (self, Ok(false))
                } else {
                    (Cursor { map_key: tag_name, ..self }, Ok(true))
                },
                EventView::Character(text) => if spec_is_blank(text) {
                    let (next, advanced) = self.advance();
                    match advanced {
                        Err(e) => (next, Err(e)),
                        Ok(_) => if self.cursor < next.cursor <= self.events.len() && next.events
                            == self.events {
                            next.next_element(tag_name)
                        } else {
                            (next, Ok(false))
                        },
                    }
                } else {
                    (self, Ok(false))
                },
                _ => (self, Ok(false)),
            }
        }
    }

    /// Whether the enum stands inside of the element that the map key
    /// named: the tag at the cursor has the name of the key.
    pub open spec fn enum_within_element(self) -> bool {
        self.map_key matches Some(key) && self.has_event() && self.current()
            == (EventView::OpenStartTag { name: key })
    }

    /// How the enum at the cursor is read.
    ///
    /// * Where the tag at the cursor is not the element that the map key
    ///   named, the tag is the variant.
    /// * Where it is and the element has child elements, the first child
    ///   is the variant: the start tag of the element is consumed.
    /// * Where it is and the element has text only, the text is the
    ///   variant.
    pub open spec fn begin_enum(self) -> (Cursor, Result<EnumAccess, DeserializationErrorView>) {
        if self.enum_within_element() {
            match self.content_type_from(self.cursor + 1, false) {
                Err(e) => (self, Err(e)),
                Ok(content) => if content.contains_child_elements {
                    let (pushed, r) = self.push_elt();
                    match r {
                        Err(e) => (pushed, Err(e)),
                        Ok(()) => {
                            let (next, r) = pushed.advance_to_content();
                            match r {
                                Err(e) => (next, Err(e)),
                                Ok(()) => (
                                    next,
                                    Ok(
                                        EnumAccess {
                                            use_tag_name_for_variant: true,
                                            enum_within_element: true,
                                        },
                                    ),
                                ),
                            }
                        },
                    }
                } else {
                    (
                        self,
                        Ok(
                            EnumAccess {
                                use_tag_name_for_variant: false,
                                enum_within_element: true,
                            },
                        ),
                    )
                },
            }
        } else {
            (self, Ok(EnumAccess { use_tag_name_for_variant: true, enum_within_element: false }))
        }
    }

    /// The name of the variant of the enum at the cursor.
    pub open spec fn variant_name(self, access: EnumAccess) -> (
        Cursor,
        Result<Seq<char>, DeserializationErrorView>,
    ) {
        if access.use_tag_name_for_variant {
            if self.has_event() && self.current() is OpenStartTag {
                (self, Ok(self.current()->OpenStartTag_name))
            } else {
                (self, Err(DeserializationErrorView::ExpectedStartTag))
            }
        } else {
            self.consume_text()
        }
    }

    /// A variant without a value is consumed: its element, where the tag
    /// names the variant.
    pub open spec fn unit_variant(self, access: EnumAccess) -> (
        Cursor,
        Result<(), DeserializationErrorView>,
    ) {
        if access.use_tag_name_for_variant {
            let (pushed, r) = self.push_elt();
            match r {
                Err(e) => (pushed, Err(e)),
                Ok(()) => pushed.pop_elt(),
            }
        } else {
            (self, Ok(()))
        }
    }

    /// The state in which the values of a tuple variant are read: the
    /// elements of the sequence have the name of the variant's tag.
    pub open spec fn tuple_variant(self, access: EnumAccess) -> (
        Cursor,
        Result<(), DeserializationErrorView>,
    ) {
        if access.use_tag_name_for_variant {
            if self.has_event() && self.current() is OpenStartTag {
                (Cursor { map_key: Some(self.current()->OpenStartTag_name), ..self }, Ok(()))
            } else {
                (self, Err(DeserializationErrorView::ExpectedStartTag))
            }
        } else {
            (self, Ok(()))
        }
    }

    /// After the enum was read, the element that held it is closed.
    pub open spec fn end_enum(self, access: EnumAccess) -> (
        Cursor,
        Result<(), DeserializationErrorView>,
    ) {
        if access.enum_within_element && access.use_tag_name_for_variant {
            self.pop_elt()
        } else {
            (self, Ok(()))
        }
    }
}

/// What asking for a key returned, in the terms of specifications.
pub open spec fn key_view(r: Result<Option<String>, DeserializationError>) -> Result<
    Option<Seq<char>>,
    DeserializationErrorView,
> {
    match r {
        Ok(key) => Ok(option_view(key)),
        Err(e) => Err(e@),
    }
}

/// The field name `$value`.
pub fn dollar_value_key() -> (s: String)
    ensures
        s@ == dollar_value(),
{
    let mut s = String::new();
    push_text(&mut s, "$value");
    s
}

impl SgmlDeserializer {
    /// Starts reading as a map the element whose start tag was consumed.
    /// `emit_value` tells whether the struct has a field named `$value`.
    pub fn map_access(&self, emit_value: bool) -> (map: MapAccess)
        ensures
            map@ == self@.map_state(emit_value),
    {
        let content_strategy = if emit_value {
            match self.peek_content_type() {
                Ok(content) => if content.contains_child_elements {
                    ContentStrategy::ElementsAreDollarValue
                } else {
                    ContentStrategy::TextOnly
                },
                Err(_) => ContentStrategy::TextOnly,
            }
        } else {
            ContentStrategy::ElementsAreMapEntries
        };
        let text_content = match content_strategy {
            ContentStrategy::TextOnly => Some(String::new()),
            _ => None,
        };
        MapAccess {
            map_key: None,
            content_strategy,
            text_content,
            next_entry_is_dollarvalue: false,
        }
    }

    /// Tells the next key of the map, if there is one.
    pub fn next_key(&mut self, map: &mut MapAccess) -> (r: Result<
        Option<String>,
        DeserializationError,
    >)
        ensures
            (final(self)@, final(map)@, key_view(r)) == old(self)@.next_key(old(map)@),
    {
        loop
            invariant
                self@.events == old(self)@.events,
                old(self)@.next_key(old(map)@) == self@.next_key(map@),
            decreases self.events@.len() - self.cursor,
        {
            if self.cursor >= self.events.len() {
                return Err(DeserializationError::UnexpectedEof);
            }
            let ghost before = self@;
            match &self.events[self.cursor] {
                SgmlEvent::EndTag { .. } | SgmlEvent::XmlCloseEmptyElement => {
                    if map.text_content.is_some() {
                        map.next_entry_is_dollarvalue = true;
                        map.map_key = Some(dollar_value_key());
                        return Ok(Some(dollar_value_key()));
                    } else {
                        return Ok(None);
                    }
                },
                SgmlEvent::Attribute { name, .. } => {
                    return Ok(Some(name.clone()));
                },
                SgmlEvent::CloseStartTag => {
                    match self.advance() {
                        Ok(_) => {},
                        Err(e) => {
                            return Err(e);
                        },
                    }
                },
                SgmlEvent::OpenStartTag { name } => {
                    match map.content_strategy {
                        ContentStrategy::ElementsAreMapEntries => {
                            map.map_key = Some(name.clone());
                            return Ok(Some(name.clone()));
                        },
                        ContentStrategy::ElementsAreDollarValue => {
                            return Ok(Some(dollar_value_key()));
                        },
                        ContentStrategy::TextOnly => {
                            return Err(
                                DeserializationError::Unsupported(
                                    self.events[self.cursor].duplicate(),
                                ),
                            );
                        },
                    }
                },
                SgmlEvent::Character(text) => {
                    match map.text_content {
                        Some(_) => {
                            let mut so_far = map.text_content.take().unwrap();
                            push_text(&mut so_far, text.as_str());
                            map.text_content = Some(so_far);
                        },
                        None => {},
                    }
                    match self.advance() {
                        Ok(_) => {},
                        Err(e) => {
                            return Err(e);
                        },
                    }
                },
                _ => {
                    return Err(
                        DeserializationError::Unsupported(self.events[self.cursor].duplicate()),
                    );
                },
            }
            proof {
                crate::de::lemma_step_moves(before);
            }
        }
    }

    /// Prepares for reading the value of the entry whose key was
    /// announced, and tells where the value comes from.
    pub fn before_value(&mut self, map: &mut MapAccess) -> (source: ValueSource)
        ensures
            source == old(self)@.value_source(old(map)@),
            (final(self)@, final(map)@) == old(self)@.before_value(old(map)@),
    {
        if map.next_entry_is_dollarvalue {
            self.accumulated_text = Some(
                match map.text_content.take() {
                    Some(text) => text,
                    None => String::new(),
                },
            );
            ValueSource::CapturedText
        } else {
            let at_attribute = self.cursor < self.events.len() && match &self.events[self.cursor] {
                SgmlEvent::Attribute { .. } => true,
                _ => false,
            };
            if at_attribute {
                ValueSource::Attribute
            } else {
                self.map_key = map.map_key.take();
                ValueSource::Element
            }
        }
    }

    /// Tidies up after the value of an entry was read.
    pub fn after_value(&mut self, source: ValueSource)
        ensures
            final(self)@ == old(self)@.after_value(source),
    {
        match source {
            ValueSource::CapturedText => {
                self.accumulated_text = None;
            },
            ValueSource::Attribute => {},
            ValueSource::Element => {
                self.map_key = None;
            },
        }
    }

    /// Starts reading a sequence: its elements have the name of the tag
    /// that is expected next, if there is one.
    pub fn begin_seq(&mut self) -> (seq: SeqAccess)
        ensures
            option_view(seq.tag_name) == old(self)@.map_key,
            final(self)@ == (Cursor { map_key: None, ..old(self)@ }),
    {
        SeqAccess { tag_name: self.map_key.take() }
    }

    /// Tells whether the sequence has a next element, which then starts
    /// at the cursor.
    pub fn next_element(&mut self, seq: &SeqAccess) -> (r: Result<bool, DeserializationError>)
        ensures
            (final(self)@, crate::de::bool_view(r)) == old(self)@.next_element(
                option_view(seq.tag_name),
            ),
    {
        loop
            invariant
                self@.events == old(self)@.events,
                old(self)@.next_element(option_view(seq.tag_name)) == self@.next_element(
                    option_view(seq.tag_name),
                ),
            decreases self.events@.len() - self.cursor,
        {
            if self.cursor >= self.events.len() {
                return Err(DeserializationError::UnexpectedEof);
            }
            let ghost before = self@;
            match &self.events[self.cursor] {
                SgmlEvent::OpenStartTag { name } => {
                    match &seq.tag_name {
                        Some(expected) => {
                            if !str_eq(name.as_str(), expected.as_str()) {
                                return Ok(false);
                            }
                            self.map_key = Some(expected.clone());
                        },
                        None => {
                            self.map_key = None;
                        },
                    }
                    return Ok(true);
                },
                SgmlEvent::Character(text) => {
                    if !is_blank(text.as_str()) {
                        return Ok(false);
                    }
                    match self.advance() {
                        Ok(_) => {},
                        Err(e) => {
                            return Err(e);
                        },
                    }
                },
                _ => {
                    return Ok(false);
                },
            }
            proof {
                crate::de::lemma_step_moves(before);
            }
        }
    }

    /// Starts reading an enum, and tells how it is read.
    pub fn begin_enum(&mut self) -> (r: Result<EnumAccess, DeserializationError>)
        ensures
            final(self)@ == old(self)@.begin_enum().0,
            match r {
                Ok(access) => old(self)@.begin_enum().1 == Ok::<_, DeserializationErrorView>(
                    access,
                ),
                Err(e) => old(self)@.begin_enum().1 == Err::<EnumAccess, _>(e@),
            },
    {
        // If true, we have a <map-key>(enum-value)</map-key> case;
        // if false, it's (enum-value) directly
        let enum_within_element = match &self.map_key {
            Some(key) => match self.expect_start_tag() {
                Ok(name) => str_eq(name.as_str(), key.as_str()),
                Err(_) => false,
            },
            None => false,
        };
        // If true, (enum-value) is <variant (fields)>(fields)</variant>;
        // if false, (enum-value) is just a string
        if !enum_within_element {
            // No surrounding element, so it must be <variant (fields)>(fields)</variant>
            // Keep cursor on `<variant`
            return Ok(EnumAccess { use_tag_name_for_variant: true, enum_within_element });
        }
        let content = match self.peek_content_type() {
            Ok(content) => content,
            Err(e) => {
                return Err(e);
            },
        };
        if content.contains_child_elements {
            // <key><variant (fields)>(fields)</variant></key>
            // Advance cursor to `<variant`
            match self.push_elt() {
                Ok(()) => {},
                Err(e) => {
                    return Err(e);
                },
            }
            match self.advance_to_content() {
                Ok(()) => {},
                Err(e) => {
                    return Err(e);
                },
            }
            Ok(EnumAccess { use_tag_name_for_variant: true, enum_within_element })
        } else {
            // <key>variant</key>
            // Keep cursor on `<key`
            Ok(EnumAccess { use_tag_name_for_variant: false, enum_within_element })
        }
    }

    /// Reads the name of the variant of the enum at the cursor.
    pub fn variant_name(&mut self, access: EnumAccess) -> (r: Result<String, DeserializationError>)
        ensures
            (final(self)@, crate::de::text_view(r)) == old(self)@.variant_name(access),
    {
        if access.use_tag_name_for_variant {
            match self.expect_start_tag() {
                Ok(name) => Ok(name.clone()),
                Err(e) => Err(e),
            }
        } else {
            self.consume_text()
        }
    }

    /// Consumes a variant without a value.
    pub fn unit_variant(&mut self, access: EnumAccess) -> (r: Result<(), DeserializationError>)
        ensures
            (final(self)@, crate::de::unit_view(r)) == old(self)@.unit_variant(access),
    {
        if access.use_tag_name_for_variant {
            match self.push_elt() {
                Ok(()) => self.pop_elt(),
                Err(e) => Err(e),
            }
        } else {
            Ok(())
        }
    }

    /// Prepares for reading the values of a tuple variant as a sequence.
    pub fn tuple_variant(&mut self, access: EnumAccess) -> (r: Result<(), DeserializationError>)
        ensures
            (final(self)@, crate::de::unit_view(r)) == old(self)@.tuple_variant(access),
    {
        if access.use_tag_name_for_variant {
            match self.expect_start_tag() {
                Ok(name) => {
                    let key = name.clone();
                    self.map_key = Some(key);
                    Ok(())
                },
                Err(e) => Err(e),
            }
        } else {
            Ok(())
        }
    }

    /// Closes the element that held the enum, after the enum was read.
    pub fn end_enum(&mut self, access: EnumAccess) -> (r: Result<(), DeserializationError>)
        ensures
            (final(self)@, crate::de::unit_view(r)) == old(self)@.end_enum(access),
    {
        if access.enum_within_element && access.use_tag_name_for_variant {
            self.pop_elt()
        } else {
            Ok(())
        }
    }
}

} // verus!
