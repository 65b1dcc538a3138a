//! The settings of the parser.

use vstd::prelude::*;
use vstd::slice::slice_subrange;

use crate::chars::push_char;
use crate::chars::to_chars;
use crate::entities::expand_chars;
use crate::entities::expansion;
use crate::entities::EntityError;
use crate::entities::EntityTable;
use crate::entities::ReferenceKind;
use crate::marked_sections::ascii_lowercase;
use crate::marked_sections::ascii_uppercase;
use crate::marked_sections::spec_ascii_lowercase;
use crate::marked_sections::spec_ascii_uppercase;
use crate::marked_sections::MarkedSectionStatus;
use crate::parser::util::Span;
use crate::text::trim_bounds;
use crate::text::trim_range;

verus! {

/// How tag and attribute names should be handled.
#[derive(Clone, Copy, Debug, Eq, PartialEq)]
pub enum NameNormalization {
    /// Keep tag and attribute names as-is.
    Unchanged,
    /// Normalize all tag and attribute names to lowercase.
    ToLowercase,
    /// Normalize all tag and attribute names to uppercase.
    ToUppercase,
}

impl Default for NameNormalization {
    fn default() -> (r: NameNormalization)
        ensures
            r == NameNormalization::Unchanged,
    {
        NameNormalization::Unchanged
    }
}

impl NameNormalization {
    /// What the normalization makes of one character: only ASCII letters
    /// change.
    pub open spec fn spec_fold(self, c: char) -> char {
        match self {
            NameNormalization::Unchanged => c,
            NameNormalization::ToLowercase => spec_ascii_lowercase(c),
            NameNormalization::ToUppercase => spec_ascii_uppercase(c),
        }
    }

    /// What the normalization makes of one character.
    #[verifier::when_used_as_spec(spec_fold)]
    pub fn fold(self, c: char) -> (r: char)
        ensures
            r == self.spec_fold(c),
    {
        match self {
            NameNormalization::Unchanged => c,
            NameNormalization::ToLowercase => ascii_lowercase(c),
            NameNormalization::ToUppercase => ascii_uppercase(c),
        }
    }

    /// What the normalization makes of a name: each character is
    /// converted by itself.
    pub open spec fn normalized(self, name: Seq<char>) -> Seq<char> {
        Seq::new(name.len(), |i: int| self.spec_fold(name[i]))
    }

    /// Normalizes the name that the characters `input[span.0..span.1]`
    /// make.
    pub fn normalize_span(self, input: &[char], span: Span) -> (r: String)
        requires
            span.0 <= span.1 <= input@.len(),
        ensures
            r@ == self.normalized(input@.subrange(span.0 as int, span.1 as int)),
    {
        let mut out = String::new();
        let mut i: usize = span.0;
        let ghost name = input@.subrange(span.0 as int, span.1 as int);
        while i < span.1
            invariant
                span.0 <= i <= span.1 <= input@.len(),
                name == input@.subrange(span.0 as int, span.1 as int),
                out@ == self.normalized(name.take(i - span.0)),
            decreases span.1 - i,
        {
            push_char(&mut out, self.fold(input[i]));
            assert(out@ == self.normalized(name.take(i + 1 - span.0)));
            i += 1;
        }
        assert(name.take(span.1 - span.0) == name);
        out
    }

    /// Normalizes a name.
    pub fn normalize(&self, name: String) -> (r: String)
        ensures
            r@ == self.normalized(name@),
    {
        let chars = to_chars(name.as_str());
        let r = self.normalize_span(chars.as_slice(), (0, chars.len()));
        assert(chars@.subrange(0, chars@.len() as int) == chars@);
        r
    }
}

/// How marked sections (`<![CDATA[example]]>`) should be handled.
#[derive(Clone, Copy, Debug, Eq, PartialEq)]
pub enum MarkedSectionHandling {
    /// Keep all marked sections as [`MarkedSection`](crate::SgmlEvent::MarkedSection)
    /// events in the stream.
    KeepUnmodified,
    /// Expand `CDATA` and `RCDATA` sections into [`Character`][crate::SgmlEvent::Character] events,
    /// treat anything else as a parse error.
    AcceptOnlyCharacterData,
    /// Expand also `INCLUDE` and `IGNORE` sections.
    ExpandAll,
}

impl Default for MarkedSectionHandling {
    fn default() -> (r: MarkedSectionHandling)
        ensures
            r == MarkedSectionHandling::AcceptOnlyCharacterData,
    {
        MarkedSectionHandling::AcceptOnlyCharacterData
    }
}

impl MarkedSectionHandling {
    /// The status that the status keywords give under these rules, or the
    /// stretch of the text that is rejected.
    ///
    /// Where only character data is accepted, the text must be the one
    /// keyword `CDATA` or `RCDATA`: anything else is rejected as a whole,
    /// even two keywords that are accepted one by one. Under the other
    /// rules the highest status among the keywords counts, and the first
    /// word that is no keyword is rejected.
    pub open spec fn status_of(self, status_keywords: Seq<char>) -> Result<
        MarkedSectionStatus,
        (int, int),
    > {
        match self {
            MarkedSectionHandling::AcceptOnlyCharacterData => match MarkedSectionStatus::of_keyword(
                status_keywords,
            ) {
                Some(MarkedSectionStatus::CData) => Ok(MarkedSectionStatus::CData),
                Some(MarkedSectionStatus::RcData) => Ok(MarkedSectionStatus::RcData),
                _ => Err((0, status_keywords.len() as int)),
            },
            _ => MarkedSectionStatus::of_keywords(status_keywords),
        }
    }

    /// Parses the status keywords in the given text according to the chosen rules.
    ///
    /// Returns the stretch of the text that is rejected if any of the
    /// keywords is.
    pub fn parse_keywords(&self, status_keywords: &[char]) -> (r: Result<
        MarkedSectionStatus,
        Span,
    >)
        ensures
            match r {
                Ok(status) => self.status_of(status_keywords@) == Ok::<_, (int, int)>(status),
                Err(span) => self.status_of(status_keywords@) == Err::<MarkedSectionStatus, _>(
                    (span.0 as int, span.1 as int),
                ) && span.0 <= span.1 <= status_keywords@.len(),
            },
    {
        match self {
            // In this mode, only one keyword is accepted; even combining
            // two otherwise acceptable keywords (e.g. `<![CDATA CDATA[`) is rejected
            MarkedSectionHandling::AcceptOnlyCharacterData => {
                match MarkedSectionStatus::from_keyword_chars(status_keywords) {
                    Some(MarkedSectionStatus::CData) => Ok(MarkedSectionStatus::CData),
                    Some(MarkedSectionStatus::RcData) => Ok(MarkedSectionStatus::RcData),
                    _ => Err((0, status_keywords.len())),
                }
            },
            _ => MarkedSectionStatus::from_keywords_chars(status_keywords),
        }
    }
}

/// The settings of the parser.
#[derive(Clone, Debug)]
pub struct ParserConfig {
    /// When `true`, leading and trailing whitespace from [`Character`](crate::SgmlEvent::Character) events will be trimmed.
    /// Defaults to `true`.
    pub trim_whitespace: bool,
    /// Defines how tag and attribute names should be handled.
    pub name_normalization: NameNormalization,
    /// Defines how marked sections should be handled.
    pub marked_section_handling: MarkedSectionHandling,
    /// When `true`, markup declarations are parsed and yield no event.
    pub ignore_markup_declarations: bool,
    /// When `true`, processing instructions are parsed and yield no event.
    pub ignore_processing_instructions: bool,
    /// The general entities, for `&name;` in replaceable character data.
    pub entities: EntityTable,
    /// The parameter entities, for `%name;` in the status keywords of
    /// marked sections.
    pub parameter_entities: EntityTable,
}

/// The mathematical value of a [`ParserConfig`].
pub struct ConfigView {
    pub trim_whitespace: bool,
    pub name_normalization: NameNormalization,
    pub marked_section_handling: MarkedSectionHandling,
    pub ignore_markup_declarations: bool,
    pub ignore_processing_instructions: bool,
    pub entities: Seq<(Seq<char>, Seq<char>)>,
    pub parameter_entities: Seq<(Seq<char>, Seq<char>)>,
}

impl ConfigView {
    /// The bounds of the text `s[from..to]` after the trimming that the
    /// settings ask for.
    pub open spec fn trim(self, s: Seq<char>, from: int, to: int) -> (int, int) {
        if self.trim_whitespace {
            trim_bounds(s, from, to)
        } else {
            (from, to)
        }
    }

    /// The default settings.
    pub open spec fn default() -> ConfigView {
        ConfigView {
            trim_whitespace: true,
            name_normalization: NameNormalization::Unchanged,
            marked_section_handling: MarkedSectionHandling::AcceptOnlyCharacterData,
            ignore_markup_declarations: false,
            ignore_processing_instructions: false,
            entities: Seq::empty(),
            parameter_entities: Seq::empty(),
        }
    }
}

impl View for ParserConfig {
    type V = ConfigView;

    open spec fn view(&self) -> ConfigView {
        ConfigView {
            trim_whitespace: self.trim_whitespace,
            name_normalization: self.name_normalization,
            marked_section_handling: self.marked_section_handling,
            ignore_markup_declarations: self.ignore_markup_declarations,
            ignore_processing_instructions: self.ignore_processing_instructions,
            entities: self.entities@,
            parameter_entities: self.parameter_entities@,
        }
    }
}

impl ParserConfig {
    /// Creates a new `ParserConfig`, with default settings.
    ///
    /// The default settings are:
    ///
    /// * Whitespace is automatically trimmed
    /// * Tag and attribute names are kept in original form
    /// * Only `CDATA` and `RCDATA` marked sections are allowed;
    ///   `IGNORE` and `INCLUDE` blocks, for instance, are rejected
    /// * Only character references (`&#33;`) are accepted; all entities (`&example;`)
    ///   are rejected
    /// * Parameter entities (`%example;`) in marked sections are rejected
    pub fn new() -> (config: ParserConfig)
        ensures
            config@ == ConfigView::default(),
    {
        ParserConfig {
            trim_whitespace: true,
            name_normalization: NameNormalization::Unchanged,
            marked_section_handling: MarkedSectionHandling::AcceptOnlyCharacterData,
            ignore_markup_declarations: false,
            ignore_processing_instructions: false,
            entities: EntityTable::new(),
            parameter_entities: EntityTable::new(),
        }
    }

    /// Creates a new builder, for ease of configuration.
    pub fn builder() -> (builder: ParserConfigBuilder)
        ensures
            builder@ == ConfigView::default(),
    {
        ParserConfigBuilder::new()
    }

    /// The bounds of the text `input[span.0..span.1]` after the trimming
    /// that the settings ask for.
    pub fn trim(&self, input: &[char], span: Span) -> (r: Span)
        requires
            span.0 <= span.1 <= input@.len(),
        ensures
            (r.0 as int, r.1 as int) == self@.trim(input@, span.0 as int, span.1 as int),
            span.0 <= r.0 <= r.1 <= span.1,
    {
        if self.trim_whitespace {
            trim_range(input, span.0, span.1)
        } else {
            span
        }
    }

    /// Expands the references in the replaceable character data
    /// `input[span.0..span.1]`.
    pub fn parse_rcdata(&self, input: &[char], span: Span) -> (r: Result<String, EntityError>)
        requires
            span.0 <= span.1 <= input@.len(),
        ensures
            crate::entities::result_view(r) == expansion(
                input@.subrange(span.0 as int, span.1 as int),
                ReferenceKind::General,
                self@.entities,
            ),
    {
        let text = slice_subrange(input, span.0, span.1);
        expand_chars(text, ReferenceKind::General, &self.entities)
    }

    /// Expands the parameter entity references in the text
    /// `input[span.0..span.1]` of a markup declaration.
    pub fn parse_markup_declaration_text(&self, input: &[char], span: Span) -> (r: Result<
        String,
        EntityError,
    >)
        requires
            span.0 <= span.1 <= input@.len(),
        ensures
            crate::entities::result_view(r) == expansion(
                input@.subrange(span.0 as int, span.1 as int),
                ReferenceKind::Parameter,
                self@.parameter_entities,
            ),
    {
        let text = slice_subrange(input, span.0, span.1);
        expand_chars(text, ReferenceKind::Parameter, &self.parameter_entities)
    }
}

impl Default for ParserConfig {
    /// Creates a new, default `ParserConfig`. See [`ParserConfig::new`] for the default settings.
    fn default() -> (config: ParserConfig)
        ensures
            config@ == ConfigView::default(),
    {
        ParserConfig::new()
    }
}

/// A builder for parser configurations.
#[derive(Clone, Debug)]
pub struct ParserConfigBuilder {
    pub config: ParserConfig,
}

impl View for ParserConfigBuilder {
    type V = ConfigView;

    open spec fn view(&self) -> ConfigView {
        self.config@
    }
}

impl ParserConfigBuilder {
    /// A builder that starts from the default settings.
    pub fn new() -> (builder: ParserConfigBuilder)
        ensures
            builder@ == ConfigView::default(),
    {
        ParserConfigBuilder { config: ParserConfig::new() }
    }

    /// Defines how tag and attribute names should be normalized.
    pub fn name_normalization(self, name_normalization: NameNormalization) -> (r:
        ParserConfigBuilder)
        ensures
            r@ == (ConfigView { name_normalization, ..self@ }),
    {
        let mut r = self;
        r.config.name_normalization = name_normalization;
        r
    }

    /// Normalizes all tag and attribute names to lowercase.
    pub fn lowercase_names(self) -> (r: ParserConfigBuilder)
        ensures
            r@ == (ConfigView { name_normalization: NameNormalization::ToLowercase, ..self@ }),
    {
        self.name_normalization(NameNormalization::ToLowercase)
    }

    /// Normalizes all tag and attribute names to uppercase.
    pub fn uppercase_names(self) -> (r: ParserConfigBuilder)
        ensures
            r@ == (ConfigView { name_normalization: NameNormalization::ToUppercase, ..self@ }),
    {
        self.name_normalization(NameNormalization::ToUppercase)
    }

    /// Defines the general entities that `&name;` references resolve to.
    pub fn expand_entities(self, entities: EntityTable) -> (r: ParserConfigBuilder)
        ensures
            r@ == (ConfigView { entities: entities@, ..self@ }),
    {
        let mut r = self;
        r.config.entities = entities;
        r
    }

    /// Defines the parameter entities that `%name;` references resolve to.
    pub fn expand_parameter_entities(self, entities: EntityTable) -> (r: ParserConfigBuilder)
        ensures
            r@ == (ConfigView { parameter_entities: entities@, ..self@ }),
    {
        let mut r = self;
        r.config.parameter_entities = entities;
        r
    }

    /// Defines how marked sections should be handled.
    pub fn marked_section_handling(self, mode: MarkedSectionHandling) -> (r: ParserConfigBuilder)
        ensures
            r@ == (ConfigView { marked_section_handling: mode, ..self@ }),
    {
        let mut r = self;
        r.config.marked_section_handling = mode;
        r
    }

    /// Enables support for all marked sections, including `<![INCLUDE[...]]>`
    /// and `<![IGNORE[...]]>`.
    ///
    /// By default, only `CDATA` and `RCDATA` marked sections are accepted.
    pub fn expand_marked_sections(self) -> (r: ParserConfigBuilder)
        ensures
            r@ == (ConfigView {
                marked_section_handling: MarkedSectionHandling::ExpandAll,
                ..self@
            }),
    {
        self.marked_section_handling(MarkedSectionHandling::ExpandAll)
    }

    /// Defines whether whitespace surrounding text should be trimmed.
    pub fn trim_whitespace(self, trim_whitespace: bool) -> (r: ParserConfigBuilder)
        ensures
            r@ == (ConfigView { trim_whitespace, ..self@ }),
    {
        let mut r = self;
        r.config.trim_whitespace = trim_whitespace;
        r
    }

    /// Defines whether markup declarations should yield no event.
    pub fn ignore_markup_declarations(self, ignore: bool) -> (r: ParserConfigBuilder)
        ensures
            r@ == (ConfigView { ignore_markup_declarations: ignore, ..self@ }),
    {
        let mut r = self;
        r.config.ignore_markup_declarations = ignore;
        r
    }

    /// Defines whether processing instructions should yield no event.
    pub fn ignore_processing_instructions(self, ignore: bool) -> (r: ParserConfigBuilder)
        ensures
            r@ == (ConfigView { ignore_processing_instructions: ignore, ..self@ }),
    {
        let mut r = self;
        r.config.ignore_processing_instructions = ignore;
        r
    }

    /// Returns a [`ParserConfig`] with the configuration that was built using other methods.
    pub fn build(self) -> (config: ParserConfig)
        ensures
            config == self.config,
    {
        self.config
    }
}

} // verus!
