//! The SGML parser: from a source text to a fragment of events.

use vstd::prelude::*;

use crate::chars::to_chars;
use crate::entities::EntityTable;
use crate::error::Error;
use crate::error::ErrorView;
use crate::event::start_tags_closed;
use crate::fragment::SgmlFragment;
use crate::parser::config::ConfigView;
use crate::parser::config::MarkedSectionHandling;
use crate::parser::config::NameNormalization;
use crate::parser::config::ParserConfig;
use crate::parser::error::description;
use crate::parser::error::ContextualizedError;
use crate::parser::error::FailureView;
use crate::parser::events::document_entity;
use crate::parser::events::spec_document_entity;

pub mod config;
pub mod error;
pub mod events;
pub mod raw;
pub mod util;

verus! {

/// Parses the given string using a [`Parser`] with default settings,
/// yielding an [`SgmlFragment`].
///
/// This list can then be adjusted as desired, and later deserialized.
pub fn parse(input: &str) -> (r: Result<SgmlFragment, Error>)
    ensures
        parse_result(r, input@, ConfigView::default()),
{
    Parser::new().parse(input)
}

/// What the outcome `r` of parsing the text `s` under the settings `cfg`
/// is: the fragment with the events of the document, none of whose start
/// tags is left open; or, where the text is no document, the description
/// of why it is not.
pub open spec fn parse_result(r: Result<SgmlFragment, Error>, s: Seq<char>, cfg: ConfigView) -> bool {
    match r {
        Ok(fragment) => spec_document_entity(s, cfg) == Ok::<_, FailureView>(
            (fragment@, s.len() as int),
        ) && start_tags_closed(fragment@),
        Err(e) => spec_document_entity(s, cfg) matches Err(f) && e@ == ErrorView::ParseError(
            description(f.trace, s),
        ),
    }
}

/// What the outcome `r` of parsing the text `s` under the settings `cfg`
/// is, where the error is kept as the parser made it.
pub open spec fn detailed_parse_result(
    r: Result<SgmlFragment, ContextualizedError>,
    s: Seq<char>,
    cfg: ConfigView,
) -> bool {
    match r {
        Ok(fragment) => spec_document_entity(s, cfg) == Ok::<_, FailureView>(
            (fragment@, s.len() as int),
        ) && start_tags_closed(fragment@),
        Err(e) => spec_document_entity(s, cfg) matches Err(f) && e@ == f.trace,
    }
}

/// The parser for SGML data.
///
/// The parser is only meant to work with the *content* of an SGML document.
#[derive(Clone, Debug)]
pub struct Parser {
    pub config: ParserConfig,
}

impl View for Parser {
    type V = ConfigView;

    open spec fn view(&self) -> ConfigView {
        self.config@
    }
}

impl Parser {
    /// Creates a new parser with default settings.
    ///
    /// The default settings are:
    ///
    /// * Whitespace is automatically trimmed
    /// * Tag and attribute names are kept in original form
    /// * Only `CDATA` and `RCDATA` marked sections are allowed;
    ///   `IGNORE` and `INCLUDE` blocks, for instance, are rejected
    /// * Only character references (`&#33;`) are accepted; all entities (`&example;`)
    ///   are rejected
    /// * Parameter entities (`%example;`) in marked sections are rejected
    pub fn new() -> (parser: Parser)
        ensures
            parser@ == ConfigView::default(),
    {
        Parser { config: ParserConfig::new() }
    }

    /// Creates a new parser builder.
    pub fn builder() -> (builder: ParserBuilder)
        ensures
            builder@ == ConfigView::default(),
    {
        ParserBuilder::new()
    }

    /// Parses the given input.
    ///
    /// A parse error is described in the error that is returned; see
    /// [`parse_with_detailed_errors`](Parser::parse_with_detailed_errors)
    /// for the error as the parser made it.
    pub fn parse(&self, input: &str) -> (r: Result<SgmlFragment, Error>)
        ensures
            parse_result(r, input@, self@),
    {
        let chars = to_chars(input);
        match document_entity(chars.as_slice(), &self.config) {
            Ok((events, _)) => Ok(SgmlFragment { events }),
            Err(f) => {
                let mut text = String::new();
                f.error.describe_to(chars.as_slice(), &mut text);
                Err(Error::ParseError(text))
            },
        }
    }

    /// Parses the given input, and keeps the error as the parser made it.
    pub fn parse_with_detailed_errors(&self, input: &str) -> (r: Result<
        SgmlFragment,
        ContextualizedError,
    >)
        ensures
            detailed_parse_result(r, input@, self@),
    {
        let chars = to_chars(input);
        match document_entity(chars.as_slice(), &self.config) {
            Ok((events, _)) => Ok(SgmlFragment { events }),
            Err(f) => Err(f.error),
        }
    }
}

impl Default for Parser {
    fn default() -> (parser: Parser)
        ensures
            parser@ == ConfigView::default(),
    {
        Parser::new()
    }
}

/// A fluent interface for configuring parsers.
#[derive(Clone, Debug)]
pub struct ParserBuilder {
    pub config: ParserConfig,
}

impl View for ParserBuilder {
    type V = ConfigView;

    open spec fn view(&self) -> ConfigView {
        self.config@
    }
}

impl ParserBuilder {
    /// Creates a new parser builder, with the default settings.
    pub fn new() -> (builder: ParserBuilder)
        ensures
            builder@ == ConfigView::default(),
    {
        ParserBuilder { config: ParserConfig::new() }
    }

    /// Defines whether whitespace surrounding text should be trimmed.
    pub fn trim_whitespace(self, trim_whitespace: bool) -> (r: ParserBuilder)
        ensures
            r@ == (ConfigView { trim_whitespace, ..self@ }),
    {
        let mut r = self;
        r.config.trim_whitespace = trim_whitespace;
        r
    }

    /// Defines how tag and attribute names should be normalized.
    pub fn name_normalization(self, name_normalization: NameNormalization) -> (r: ParserBuilder)
        ensures
            r@ == (ConfigView { name_normalization, ..self@ }),
    {
        let mut r = self;
        r.config.name_normalization = name_normalization;
        r
    }

    /// Normalizes all tag and attribute names to lowercase.
    pub fn lowercase_names(self) -> (r: ParserBuilder)
        ensures
            r@ == (ConfigView { name_normalization: NameNormalization::ToLowercase, ..self@ }),
    {
        self.name_normalization(NameNormalization::ToLowercase)
    }

    /// Normalizes all tag and attribute names to uppercase.
    pub fn uppercase_names(self) -> (r: ParserBuilder)
        ensures
            r@ == (ConfigView { name_normalization: NameNormalization::ToUppercase, ..self@ }),
    {
        self.name_normalization(NameNormalization::ToUppercase)
    }

    /// Defines how marked sections should be handled.
    pub fn marked_section_handling(self, mode: MarkedSectionHandling) -> (r: ParserBuilder)
        ensures
            r@ == (ConfigView { marked_section_handling: mode, ..self@ }),
    {
        let mut r = self;
        r.config.marked_section_handling = mode;
        r
    }

    /// Enables support for all marked sections, including `<![INCLUDE[...]]>`
    /// and `<![IGNORE[...]]>`.
    ///
    /// By default, only `CDATA` and `RCDATA` marked sections are accepted.
    pub fn expand_marked_sections(self) -> (r: ParserBuilder)
        ensures
            r@ == (ConfigView {
                marked_section_handling: MarkedSectionHandling::ExpandAll,
                ..self@
            }),
    {
        self.marked_section_handling(MarkedSectionHandling::ExpandAll)
    }

    /// Defines whether markup declarations should yield no event.
    pub fn ignore_markup_declarations(self, ignore: bool) -> (r: ParserBuilder)
        ensures
            r@ == (ConfigView { ignore_markup_declarations: ignore, ..self@ }),
    {
        let mut r = self;
        r.config.ignore_markup_declarations = ignore;
        r
    }

    /// Defines whether processing instructions should yield no event.
    pub fn ignore_processing_instructions(self, ignore: bool) -> (r: ParserBuilder)
        ensures
            r@ == (ConfigView { ignore_processing_instructions: ignore, ..self@ }),
    {
        let mut r = self;
        r.config.ignore_processing_instructions = ignore;
        r
    }

    /// Defines the general entities that `&name;` references resolve to.
    ///
    /// By default, only character references (`&#33;`) are resolved.
    pub fn expand_entities(self, entities: EntityTable) -> (r: ParserBuilder)
        ensures
            r@ == (ConfigView { entities: entities@, ..self@ }),
    {
        let mut r = self;
        r.config.entities = entities;
        r
    }

    /// Defines the parameter entities that `%name;` references in the
    /// status keywords of marked sections resolve to.
    pub fn expand_parameter_entities(self, entities: EntityTable) -> (r: ParserBuilder)
        ensures
            r@ == (ConfigView { parameter_entities: entities@, ..self@ }),
    {
        let mut r = self;
        r.config.parameter_entities = entities;
        r
    }

    /// Builds a new parser from the given configuration.
    pub fn build(self) -> (parser: Parser)
        ensures
            parser@ == self@,
    {
        Parser { config: self.config }
    }

    /// Returns the settings that were built.
    pub fn into_config(self) -> (config: ParserConfig)
        ensures
            config@ == self@,
    {
        self.config
    }

    /// Parses the given input with the built parser.
    ///
    /// To reuse the same parser for multiple inputs, use [`build()`](ParserBuilder::build)
    /// then [`Parser::parse()`].
    pub fn parse(self, input: &str) -> (r: Result<SgmlFragment, Error>)
        ensures
            parse_result(r, input@, self@),
    {
        self.build().parse(input)
    }
}

} // verus!
