use sgmlish::entities::EntityTable;
use sgmlish::parser::config::MarkedSectionHandling;
use sgmlish::parser::error::Context;
use sgmlish::parser::error::ContextualizedError;
use sgmlish::parser::error::Failure;
use sgmlish::parser::error::LocatedLine;
use sgmlish::parser::events;
use sgmlish::Error;
use sgmlish::Parser;
use sgmlish::ParserConfig;
use sgmlish::SgmlEvent;
use sgmlish::SgmlEvent::CloseStartTag;
use sgmlish::SgmlEvent::XmlCloseEmptyElement;

fn chars(input: &str) -> Vec<char> {
    input.chars().collect()
}

fn rest_of(input: &[char], rest: usize) -> String {
    input[rest..].iter().collect()
}

fn open(name: &str) -> SgmlEvent {
    SgmlEvent::OpenStartTag { name: name.into() }
}

fn end(name: &str) -> SgmlEvent {
    SgmlEvent::EndTag { name: name.into() }
}

fn text(s: &str) -> SgmlEvent {
    SgmlEvent::Character(s.into())
}

fn attribute(name: &str, value: Option<&str>) -> SgmlEvent {
    SgmlEvent::Attribute { name: name.into(), value: value.map(|v| v.to_string()) }
}

fn located(line: &str, column_number: usize) -> LocatedLine {
    LocatedLine { line: line.to_string(), line_number: 1, column_number }
}

#[test]
fn test_locate() {
    let input = chars("hello\nworld\n");
    let expect = |offset: usize, line: &str, line_number: usize, column_number: usize| {
        assert_eq!(
            LocatedLine::locate(&input, offset),
            LocatedLine { line: line.to_string(), line_number, column_number }
        );
    };
    expect(0, "hello", 1, 1);
    expect(1, "hello", 1, 2);
    expect(4, "hello", 1, 5);
    expect(5, "hello", 1, 6);
    expect(6, "world", 2, 1);
    expect(7, "world", 2, 2);
    expect(10, "world", 2, 5);
    expect(11, "world", 2, 6);
    expect(12, "", 3, 1);
    // a position after the end counts as the end
    expect(100, "", 3, 1);
    let input = chars("a\r\nb\r");
    assert_eq!(LocatedLine::locate(&input, 1).line, "a");
    assert_eq!(LocatedLine::locate(&input, 3).line, "b\r");
}

#[test]
fn test_located_line_display_short() {
    let line = "hello";

    assert_eq!(located(line, 1).to_string(), "hello\n^");
    assert_eq!(located(line, 2).to_string(), "hello\n ^");
    assert_eq!(located(line, 6).to_string(), "hello\n     ^");
}

#[test]
fn test_display_long_prefix() {
    let line = "thîs line is fáirly long, and we may not want to output it from the start";

    assert_eq!(located(line, 1).to_string(), format!("{}\n^", line));
    assert_eq!(located(line, 10).to_string(), format!("{}\n         ^", line));
    assert_eq!(
        located(line, 40).to_string(),
        "thîs line is fáirly long, and we may not want to output it from the start\n                                       ^"
    );

    assert_eq!(
        located(line, 41).to_string(),
        "... line is fáirly long, and we may not want to output it from the start\n                                       ^"
    );

    assert_eq!(
        located(line, 52).to_string(),
        "...irly long, and we may not want to output it from the start\n                                       ^"
    );
}

#[test]
fn test_display_long_suffix() {
    let line = "this line has precisely eighty characters. It should be printed in its entirety.";
    assert_eq!(located(line, 15).to_string(), format!("{}\n{:>15}", line, "^"));

    let line = "this line has exactly eighty-one characters. ¡Demás! Should be clamped to eighty.";
    assert_eq!(
        located(line, 15).to_string(),
        "this line has exactly eighty-one characters. ¡Demás! Should be clamped to eig...\n              ^"
    );
}

#[test]
fn test_display_long_prefix_suffix() {
    let line = "this line is quite lóng, and printing too many characters after the point of interest may not be very useful";

    assert_eq!(
        located(line, 1).to_string(),
        "this line is quite lóng, and printing too many characters after the point of ...\n^"
    );

    assert_eq!(
        located(line, 40).to_string(),
        "this line is quite lóng, and printing too many characters after the point of ...\n                                       ^"
    );

    assert_eq!(
        located(line, 41).to_string(),
        "... line is quite lóng, and printing too many characters after the point of i...\n                                       ^"
    );

    assert_eq!(
        located(line, 66).to_string(),
        "...printing too many characters after the point of interest may not be very u...\n                                       ^"
    );

    assert_eq!(
        located(line, 67).to_string(),
        "...rinting too many characters after the point of interest may not be very us...\n                                       ^"
    );

    assert_eq!(
        located(line, 68).to_string(),
        "...inting too many characters after the point of interest may not be very useful\n                                       ^"
    );
}

const SAMPLE: &str = r#"
            <!DOCTYPE HTML PUBLIC "-//W3C//DTD HTML 4.01//EN"
                "http://www.w3.org/TR/html4/strict.dtd">
            <HTML>
                <HEAD>
                    <TITLE>My first HTML document</TITLE>
                </HEAD>
                <BODY>
                    <P>Hello world!
                </BODY>
            </HTML>
        "#;

#[test]
fn test_document_entity_default_config() {
    let input = chars(SAMPLE);
    let (events, rest) = events::document_entity(&input, &ParserConfig::default()).unwrap();
    assert_eq!(rest, input.len());
    let mut events = events.into_iter();

    assert_eq!(
        events.next(),
        Some(SgmlEvent::MarkupDeclaration {
            keyword: "DOCTYPE".into(),
            body: "HTML PUBLIC \"-//W3C//DTD HTML 4.01//EN\"\n                \"http://www.w3.org/TR/html4/strict.dtd\""
                .into(),
        })
    );

    assert_eq!(events.next(), Some(open("HTML")));
    assert_eq!(events.next(), Some(CloseStartTag));
    assert_eq!(events.next(), Some(open("HEAD")));
    assert_eq!(events.next(), Some(CloseStartTag));
    assert_eq!(events.next(), Some(open("TITLE")));
    assert_eq!(events.next(), Some(CloseStartTag));
    assert_eq!(events.next(), Some(text("My first HTML document")));
    assert_eq!(events.next(), Some(end("TITLE")));
    assert_eq!(events.next(), Some(end("HEAD")));

    assert_eq!(events.next(), Some(open("BODY")));
    assert_eq!(events.next(), Some(CloseStartTag));

    assert_eq!(events.next(), Some(open("P")));
    assert_eq!(events.next(), Some(CloseStartTag));
    assert_eq!(events.next(), Some(text("Hello world!")));

    assert_eq!(events.next(), Some(end("BODY")));
    assert_eq!(events.next(), Some(end("HTML")));
    assert_eq!(events.next(), None);
}

#[test]
fn test_document_entity_ignore_markup_declarations_retain_whitespace() {
    let config = Parser::builder()
        .ignore_markup_declarations(true)
        .trim_whitespace(false)
        .into_config();
    let input = chars(SAMPLE);
    let (events, rest) = events::document_entity(&input, &config).unwrap();
    assert_eq!(rest, input.len());
    let mut events = events.into_iter();

    assert_eq!(events.next(), Some(open("HTML")));
    assert_eq!(events.next(), Some(CloseStartTag));
    assert_eq!(events.next(), Some(text("\n                ")));
    assert_eq!(events.next(), Some(open("HEAD")));
    assert_eq!(events.next(), Some(CloseStartTag));
    assert_eq!(events.next(), Some(text("\n                    ")));
    assert_eq!(events.next(), Some(open("TITLE")));
    assert_eq!(events.next(), Some(CloseStartTag));
    assert_eq!(events.next(), Some(text("My first HTML document")));
    assert_eq!(events.next(), Some(end("TITLE")));
    assert_eq!(events.next(), Some(text("\n                ")));
    assert_eq!(events.next(), Some(end("HEAD")));
    assert_eq!(events.next(), Some(text("\n                ")));

    assert_eq!(events.next(), Some(open("BODY")));
    assert_eq!(events.next(), Some(CloseStartTag));
    assert_eq!(events.next(), Some(text("\n                    ")));

    assert_eq!(events.next(), Some(open("P")));
    assert_eq!(events.next(), Some(CloseStartTag));
    assert_eq!(events.next(), Some(text("Hello world!\n                ")));

    assert_eq!(events.next(), Some(end("BODY")));
    assert_eq!(events.next(), Some(text("\n            ")));
    assert_eq!(events.next(), Some(end("HTML")));
    assert_eq!(events.next(), Some(text("\n        ")));
    assert_eq!(events.next(), None);
}

#[test]
fn events_test_markup_declaration() {
    let input = chars(r##"<!DOCTYPE HTML><!SGML>"##);

    let (events, rest) = events::markup_declaration(&input, 0, &ParserConfig::default()).unwrap();
    assert_eq!(rest_of(&input, rest), "<!SGML>");
    let mut events = events.into_iter();
    assert_eq!(
        events.next(),
        Some(SgmlEvent::MarkupDeclaration { keyword: "DOCTYPE".into(), body: "HTML".into() })
    );
    assert_eq!(events.next(), None);

    let config = Parser::builder().ignore_markup_declarations(true).into_config();
    let (events, rest) = events::markup_declaration(&input, 0, &config).unwrap();
    assert_eq!(rest_of(&input, rest), "<!SGML>");
    assert_eq!(events.into_iter().next(), None);
}

#[test]
fn events_test_processing_instruction() {
    let input = chars(r##"<?experiment> "##);

    let (events, rest) =
        events::processing_instruction(&input, 0, &ParserConfig::default()).unwrap();
    assert_eq!(rest_of(&input, rest), " ");
    let mut events = events.into_iter();
    assert_eq!(
        events.next(),
        Some(SgmlEvent::ProcessingInstruction(r##"<?experiment>"##.into()))
    );
    assert_eq!(events.next(), None);

    let config = Parser::builder().ignore_processing_instructions(true).into_config();
    let (events, rest) = events::processing_instruction(&input, 0, &config).unwrap();
    assert_eq!(rest_of(&input, rest), " ");
    assert_eq!(events.into_iter().next(), None);
}

fn start_tag(input: &str, config: &ParserConfig) -> (String, Vec<SgmlEvent>) {
    let input = chars(input);
    let (events, rest) = events::start_tag(&input, 0, config).unwrap();
    (rest_of(&input, rest), events)
}

#[test]
fn test_start_tag() {
    let config = ParserConfig::default();
    let (rest, events) = start_tag("<a href='test.htm' \ntarget = _blank > ok", &config);
    assert_eq!(rest, " ok");
    assert_eq!(
        events,
        vec![
            open("a"),
            attribute("href", Some("test.htm")),
            attribute("target", Some("_blank")),
            CloseStartTag,
        ]
    );
}

#[test]
fn test_start_tag_normalize_lowercase() {
    let config = Parser::builder().lowercase_names().into_config();
    let (rest, events) = start_tag("<A HREF='test.htm' \ntArget = _blank > ok", &config);
    assert_eq!(rest, " ok");
    assert_eq!(
        events,
        vec![
            open("a"),
            attribute("href", Some("test.htm")),
            attribute("target", Some("_blank")),
            CloseStartTag,
        ]
    );
}

#[test]
fn test_start_tag_normalize_uppercase() {
    let config = Parser::builder().uppercase_names().into_config();
    let (rest, events) = start_tag("<A href='test.htm' \ntArget = _blank > ok", &config);
    assert_eq!(rest, " ok");
    assert_eq!(
        events,
        vec![
            open("A"),
            attribute("HREF", Some("test.htm")),
            attribute("TARGET", Some("_blank")),
            CloseStartTag,
        ]
    );
}

#[test]
fn test_start_tag_trim_whitespace_does_not_affect_attributes() {
    let config = Parser::builder().trim_whitespace(true).into_config();
    let (rest, events) = start_tag("<img alt=' test ' longdesc=\" desc\">", &config);
    assert_eq!(rest, "");
    assert_eq!(
        events,
        vec![
            open("img"),
            attribute("alt", Some(" test ")),
            attribute("longdesc", Some(" desc")),
            CloseStartTag,
        ]
    );
}

#[test]
fn test_start_tag_xml_no_content() {
    let (rest, events) = start_tag("<br/>", &ParserConfig::default());
    assert_eq!(rest, "");
    assert_eq!(events, vec![open("br"), XmlCloseEmptyElement]);
}

#[test]
fn events_test_start_tag_empty() {
    let (rest, events) = start_tag("<> ok", &ParserConfig::default());
    assert_eq!(rest, " ok");
    assert_eq!(events, vec![open(""), CloseStartTag]);
}

#[test]
fn test_attribute_unquoted_is_literal() {
    let input = chars("value=test&#33; ");
    let (event, rest) = events::attribute(&input, 0, &ParserConfig::default()).unwrap();
    assert_eq!(rest_of(&input, rest), " ");
    assert_eq!(event, attribute("value", Some("test&#33;")));
}

fn end_tag(input: &str, config: &ParserConfig) -> Result<(String, SgmlEvent), Failure> {
    let input = chars(input);
    events::end_tag(&input, 0, config)
        .map(|(events, rest)| (rest_of(&input, rest), events.into_iter().next().unwrap()))
}

#[test]
fn events_test_end_tag() {
    let config = ParserConfig::default();
    assert_eq!(end_tag("</x>>", &config), Ok((">".to_string(), end("x"))));
    assert_eq!(end_tag("</Foo\n> ", &config), Ok((" ".to_string(), end("Foo"))));
    assert_eq!(end_tag("</>", &config), Ok(("".to_string(), end(""))));

    let config = Parser::builder().lowercase_names().into_config();
    assert_eq!(end_tag("</x>", &config), Ok(("".to_string(), end("x"))));
    assert_eq!(end_tag("</Foo\n>", &config), Ok(("".to_string(), end("foo"))));

    let config = Parser::builder().uppercase_names().into_config();
    assert_eq!(end_tag("</x>", &config), Ok(("".to_string(), end("X"))));
    assert_eq!(end_tag("</Foo\n>", &config), Ok(("".to_string(), end("FOO"))));
}

#[test]
fn test_entity_expansion_in_quoted_attribute() {
    let entities = EntityTable::new().define("amp", "&");
    let parser = Parser::builder().expand_entities(entities).build();
    let events = parser.parse("<a href=\"&amp;x\">").unwrap().into_vec();
    assert_eq!(events, vec![open("a"), attribute("href", Some("&x")), CloseStartTag]);
    // unquoted values are not scanned for references
    let events = parser.parse("<a href=&amp;x>").unwrap().into_vec();
    assert_eq!(events, vec![open("a"), attribute("href", Some("&amp;x")), CloseStartTag]);
}

#[test]
fn test_html_style_boolean_attribute_events() {
    let events = Parser::builder()
        .lowercase_names()
        .parse("<INPUT checked disabled=\"disabled\">")
        .unwrap()
        .into_vec();
    assert_eq!(
        events,
        vec![
            open("input"),
            attribute("checked", None),
            attribute("disabled", Some("disabled")),
            CloseStartTag,
        ]
    );
}

#[test]
fn test_marked_section_expansion() {
    let parser = Parser::builder()
        .expand_marked_sections()
        .expand_parameter_entities(EntityTable::new().define("cond", "INCLUDE"))
        .build();
    let input = chars("<![%cond;[ <A>hi</A> ]]>");
    let (events, rest) = events::marked_section_declaration(&input, 0, &parser.config).unwrap();
    assert_eq!(rest, input.len());
    assert_eq!(events, vec![open("A"), CloseStartTag, text("hi"), end("A")]);
    let events = parser.parse("<x><![%cond;[ <A>hi</A> ]]></x>").unwrap().into_vec();
    assert_eq!(
        events,
        vec![open("x"), CloseStartTag, open("A"), CloseStartTag, text("hi"), end("A"), end("x")]
    );
}

#[test]
fn test_ignore_with_nested_pair() {
    let parser = Parser::builder().expand_marked_sections().build();
    let events = parser
        .parse("<a><![IGNORE[ <![CDATA[inner]]> outer ]]></a>")
        .unwrap()
        .into_vec();
    assert_eq!(events, vec![open("a"), CloseStartTag, end("a")]);
}

#[test]
fn test_marked_section_handling_modes() {
    // by default only character data is accepted
    let parser = Parser::new();
    assert_eq!(
        parser.parse("<a><![CDATA[ x &#33; ]]></a>").unwrap().into_vec(),
        vec![open("a"), CloseStartTag, text("x &#33;"), end("a")]
    );
    assert_eq!(
        parser.parse("<a><![ rcdata [ x &#33; ]]></a>").unwrap().into_vec(),
        vec![open("a"), CloseStartTag, text("x !"), end("a")]
    );
    assert_eq!(
        parser.parse("<a><![CDATA[]]></a>").unwrap().into_vec(),
        vec![open("a"), CloseStartTag, text(""), end("a")]
    );
    for rejected in ["IGNORE", "INCLUDE", "", "CDATA CDATA", "CDATA TEMP", "FOO"] {
        let input = format!("<a><![{}[ x ]]></a>", rejected);
        let error = parser.parse_with_detailed_errors(&input).unwrap_err();
        assert_eq!(
            error.error,
            Some(Error::InvalidMarkedSectionKeyword(rejected.to_string())),
            "{}",
            rejected
        );
        assert_eq!(error.offset, 6);
    }
    // kept as they are
    let parser =
        Parser::builder().marked_section_handling(MarkedSectionHandling::KeepUnmodified).build();
    assert_eq!(
        parser.parse("<a><![ IGNORE [ x <![ y ]]> z ]]></a>").unwrap().into_vec(),
        vec![
            open("a"),
            CloseStartTag,
            SgmlEvent::MarkedSection {
                status_keywords: "IGNORE".into(),
                section: " x <![ y ]]> z ".into()
            },
            end("a"),
        ]
    );
    let error = parser.parse_with_detailed_errors("<a><![temp foo bar[ x ]]></a>").unwrap_err();
    assert_eq!(error.error, Some(Error::InvalidMarkedSectionKeyword("foo".to_string())));
    assert_eq!(error.offset, 11);
}

#[test]
fn test_undefined_entities_stop_the_parser() {
    let error = Parser::new().parse_with_detailed_errors("<a>  x &foo; </a>").unwrap_err();
    assert_eq!(
        error.error,
        Some(Error::EntityError(sgmlish::entities::EntityError("foo".into())))
    );
    assert_eq!(error.offset, 5);
    let error = Parser::new().parse_with_detailed_errors("<a b = '&foo;'>").unwrap_err();
    assert_eq!(error.offset, 8);
    assert_eq!(error.context, vec![(7, Context::AttributeValue), (3, Context::Attribute), (0, Context::StartTag), (0, Context::DocumentContent)]);
    let parser = Parser::builder().expand_marked_sections().build();
    let error = parser.parse_with_detailed_errors("<a><![ %x; [ ]]></a>").unwrap_err();
    assert_eq!(
        error.error,
        Some(Error::EntityError(sgmlish::entities::EntityError("x".into())))
    );
    assert_eq!(error.offset, 7);
}

#[test]
fn test_parse_errors_are_described() {
    let error = sgmlish::parse("").unwrap_err();
    assert_eq!(error, Error::ParseError("parse error: input is empty".to_string()));
    assert_eq!(error.to_string(), "parse error: input is empty");

    let input = "<a>\n  <b c='d>\n</a>";
    let detailed = Parser::new().parse_with_detailed_errors(input).unwrap_err();
    assert_eq!(
        detailed,
        ContextualizedError {
            offset: 19,
            char: Some('\''),
            error: None,
            context: vec![
                (19, Context::ClosingSingleQuote),
                (11, Context::AttributeValue),
                (9, Context::Attribute),
                (6, Context::StartTag),
                (0, Context::DocumentContent),
            ],
        }
    );
    let expected = "parse error in closing ', at line 3: expected ''', got end of input\n\
        </a>\n    ^\n\
        From attribute value, started at line 2:\n  <b c='d>\n       ^\n\
        From attribute, started at the same line 2:\n  <b c='d>\n     ^\n\
        From start tag, started at the same line 2:\n  <b c='d>\n  ^\n\
        From document content, started at line 1:\n<a>\n^\n";
    assert_eq!(detailed.describe(input), expected);
    assert_eq!(sgmlish::parse(input), Err(Error::ParseError(expected.to_string())));

    let described = sgmlish::parse("<a> </a> <b").unwrap_err().to_string();
    assert_eq!(
        described,
        "parse error at line 1: expected '>', got end of input\n<a> </a> <b\n           ^\nFrom start tag, started at the same line 1:\n<a> </a> <b\n         ^\nFrom document content, started at the same line 1:\n<a> </a> <b\n^\n"
    );
    // what follows the content must be the epilogue
    let described = sgmlish::parse("<a></a><!DOCTYPE x>").unwrap_err().to_string();
    assert_eq!(described, "parse error at line 1:\n<a></a><!DOCTYPE x>\n       ^\n");
    let described = sgmlish::parse("<a\tb>x</a >\r\n<?pi").unwrap_err().to_string();
    assert_eq!(
        described,
        "parse error in processing instruction end (\">\"), at line 2: expected '>', got end of input\n<?pi\n    ^\nFrom processing instruction, started at the same line 2:\n<?pi\n^\nFrom document content, started at line 1:\n<a\tb>x</a >\n^\n"
    );
    let described = sgmlish::parse("<a b=\u{e9}\"").unwrap_err().to_string();
    assert!(described.contains("expected '>', got '\\\"'"), "{}", described);
    let described = sgmlish::parse("<a><!--a--\n>").unwrap_err().to_string();
    assert!(described.contains("expected '>', got end of line"), "{}", described);
}

#[test]
fn test_start_tags_are_always_closed() {
    let inputs = [
        "<a b c=d>x<e/><>y</>z</a>",
        "<!DOCTYPE x><a><![CDATA[<b]]></a><?pi>",
        "text only",
    ];
    for input in inputs {
        let events = sgmlish::parse(input).unwrap().into_vec();
        let mut in_tag = false;
        for event in &events {
            match event {
                SgmlEvent::OpenStartTag { .. } => {
                    assert!(!in_tag);
                    in_tag = true;
                }
                SgmlEvent::Attribute { .. } => assert!(in_tag),
                CloseStartTag | XmlCloseEmptyElement => {
                    assert!(in_tag);
                    in_tag = false;
                }
                _ => assert!(!in_tag),
            }
        }
        assert!(!in_tag);
    }
}

#[test]
fn test_display_round_trip() {
    let inputs = [
        "<a b=\"c\" d>x</a>",
        "<!DOCTYPE html><a>x &#60; y</a><?pi>",
        "<a b='\"'>x</a>",
        "<br/>",
    ];
    for input in inputs {
        assert_eq!(sgmlish::parse(input).unwrap().to_string(), input);
    }
    // comments are dropped, whitespace is trimmed, quotes are chosen anew
    let fragment = sgmlish::parse(" <a  b = 'c' > x <!-- y --> z </a> ").unwrap();
    assert_eq!(fragment.to_string(), "<a b=\"c\">xz</a>");
    let fragment = sgmlish::parse(" <a  b = 'c' > x <e> z </a> ").unwrap();
    assert_eq!(fragment.to_string(), "<a b=\"c\">x<e>z</a>");
    assert_eq!(sgmlish::parse(&fragment.to_string()).unwrap(), fragment);
}
