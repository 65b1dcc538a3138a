use sgmlish::parser::error::Failure;
use sgmlish::parser::raw;
use sgmlish::parser::raw::MarkedSectionEndHandling;
use sgmlish::parser::raw::MarkedSectionEndHandling::StopParsing;
use sgmlish::parser::raw::MarkedSectionEndHandling::TreatAsText;
use sgmlish::parser::util;

const MSE_MODES: [MarkedSectionEndHandling; 2] = [TreatAsText, StopParsing];

type Span = (usize, usize);

fn chars(input: &str) -> Vec<char> {
    input.chars().collect()
}

fn text_of(input: &[char], span: Span) -> String {
    input[span.0..span.1].iter().collect()
}

fn rest_of(input: &[char], rest: usize) -> String {
    input[rest..].iter().collect()
}

/// Runs a recognizer on the whole input; yields what is left of the input
/// and what the recognizer matched.
fn run(
    f: fn(&[char], usize) -> Result<(Span, usize), Failure>,
    input: &str,
) -> Result<(String, String), Failure> {
    let v = chars(input);
    f(&v, 0).map(|(span, rest)| (rest_of(&v, rest), text_of(&v, span)))
}

fn ok(rest: &str, matched: &str) -> Result<(String, String), Failure> {
    Ok((rest.to_string(), matched.to_string()))
}

#[test]
fn test_comment_declaration() {
    fn accept(decl: &str) {
        assert_eq!(run(util::comment_declaration, decl), ok("", decl));
    }

    accept("<!>");
    accept("<!--comment-->");
    accept("<!-- comment 1 ---- comment 2-->");
    accept("<!-- comment 1 -- \n -- comment 2-->");

    run(util::comment_declaration, "<! >").unwrap_err();
    run(util::comment_declaration, "<! -- comment -->").unwrap_err();
    run(util::comment_declaration, "<!-- comment -- >").unwrap_err();
}

fn markup_declaration(input: &str) -> Result<(String, (String, String)), Failure> {
    let v = chars(input);
    raw::markup_declaration(&v, 0)
        .map(|((keyword, body), rest)| (rest_of(&v, rest), (text_of(&v, keyword), text_of(&v, body))))
}

fn declaration(rest: &str, keyword: &str, body: &str) -> Result<(String, (String, String)), Failure> {
    Ok((rest.to_string(), (keyword.to_string(), body.to_string())))
}

#[test]
fn raw_test_markup_declaration() {
    assert_eq!(markup_declaration("<!DOCTYPE html>"), declaration("", "DOCTYPE", "html"));
    assert_eq!(markup_declaration("<!foo>"), declaration("", "foo", ""));
    assert_eq!(
        markup_declaration(
            r##"<!DOCTYPE HTML PUBLIC "-//W3C//DTD HTML 4.01 Transitional//EN" "http://www.w3.org/TR/html4/loose.dtd"> "##,
        ),
        declaration(
            " ",
            "DOCTYPE",
            r##"HTML PUBLIC "-//W3C//DTD HTML 4.01 Transitional//EN" "http://www.w3.org/TR/html4/loose.dtd""##
        )
    );
    assert_eq!(
        markup_declaration("<!doctype doc [ <!element p - - ANY> ] >>"),
        declaration(">", "doctype", "doc [ <!element p - - ANY> ]")
    );
    assert_eq!(
        markup_declaration(
            "<!ENTITY % HTMLsymbol PUBLIC\n                \"-//W3C//ENTITIES Symbols//EN//HTML\"\n                \"HTMLsymbol.ent\">",
        ),
        declaration(
            "",
            "ENTITY",
            "% HTMLsymbol PUBLIC\n                \"-//W3C//ENTITIES Symbols//EN//HTML\"\n                \"HTMLsymbol.ent\""
        )
    );
    assert_eq!(
        markup_declaration(r##"<!entity ccedil "ç">"##),
        declaration("", "entity", r##"ccedil "ç""##)
    );
    assert_eq!(
        markup_declaration(
            "<!ATTLIST  (TH|TD)\n                    %attrs;             -- this is a \"comment --\n                    foo %URI; #IMPLIED  -- don't match quotes here --\n                >\n                ",
        ),
        declaration(
            "\n                ",
            "ATTLIST",
            "(TH|TD)\n                    %attrs;             -- this is a \"comment --\n                    foo %URI; #IMPLIED  -- don't match quotes here --"
        )
    );

    markup_declaration("<! doctype>").unwrap_err();
    markup_declaration("< !doctype>").unwrap_err();
}

#[test]
fn test_marked_section_start() {
    let f = raw::marked_section_start_and_keywords;
    assert_eq!(
        run(f, "<![IGNORE [ lkjsdflkj sdflkj sdflkj  ]]>"),
        ok(" lkjsdflkj sdflkj sdflkj  ]]>", "IGNORE")
    );
    assert_eq!(
        run(f, "<![ %Some.Condition[<x></x>]]>"),
        ok("<x></x>]]>", "%Some.Condition")
    );
    assert_eq!(run(f, "<![CDATA[Hello]] world]]>"), ok("Hello]] world]]>", "CDATA"));
    assert_eq!(run(f, "<![ %cond;[ ]]>"), ok(" ]]>", "%cond;"));
    assert_eq!(run(f, "<![ RCDATA TEMP [ "), ok(" ", "RCDATA TEMP"));
    assert_eq!(run(f, "<![[]>]]]]]>"), ok("]>]]]]]>", ""));
    assert_eq!(run(f, "<![ [abc]]>"), ok("abc]]>", ""));
    run(f, "<![ IGNORE <").unwrap_err();
    run(f, "<![ IGNORE >").unwrap_err();
    run(f, "<![ IGNORE ]]>").unwrap_err();
}

#[test]
fn test_marked_section_body_character() {
    let f = raw::marked_section_body_character_data;
    assert_eq!(run(f, "]]>"), ok("", ""));
    assert_eq!(run(f, " ]]>"), ok("", " "));
    assert_eq!(run(f, "hello<![CDATA[world]]>]]>"), ok("]]>", "hello<![CDATA[world"));
    run(f, "").unwrap_err();
    run(f, " ").unwrap_err();
    run(f, "]]").unwrap_err();
    run(f, "]] >").unwrap_err();
    run(f, "] ]>").unwrap_err();
}

#[test]
fn test_marked_section_body_ignore() {
    let f = raw::marked_section_body_ignore;
    assert_eq!(run(f, "]]>"), ok("", ""));
    assert_eq!(run(f, " ]]>"), ok("", " "));
    assert_eq!(run(f, " hello world ]]> "), ok(" ", " hello world "));
    assert_eq!(run(f, "<IMG ALT=']]>'>"), ok("'>", "<IMG ALT='"));
    assert_eq!(run(f, "<!-- ]]> -->"), ok(" -->", "<!-- "));
    assert_eq!(run(f, r##"<!DOCTYPE "example]]>">"##), ok("\">", "<!DOCTYPE \"example"));
    assert_eq!(run(f, "hello]]world]]>]]>"), ok("]]>", "hello]]world"));
    assert_eq!(run(f, "hello]]>world]]>]]>"), ok("world]]>]]>", "hello"));
    assert_eq!(
        run(f, "<![hello]]> world]]><![[]]>"),
        ok("<![[]]>", "<![hello]]> world")
    );
    assert_eq!(
        run(f, "<!] <![CDATA[hello]]> <![[CDATA[<![[world]]>]]>]]><![CDATA[!]]>"),
        ok("<![CDATA[!]]>", "<!] <![CDATA[hello]]> <![[CDATA[<![[world]]>]]>")
    );
    assert_eq!(
        run(f, "<!] <![CDATA[hello]]> <!]]><![[CDATA[<![[world]]>]]><![CDATA[!]]>"),
        ok("<![[CDATA[<![[world]]>]]><![CDATA[!]]>", "<!] <![CDATA[hello]]> <!")
    );
    run(f, "").unwrap_err();
    run(f, "hello").unwrap_err();
    run(f, "]>").unwrap_err();
    run(f, "<![").unwrap_err();
    run(f, "<![]]>").unwrap_err();
    run(f, "<!] <![CDATA[hello]]> <![[CDATA[<![[world]]>]]><![CDATA[!]]>").unwrap_err();
}

#[test]
fn raw_test_processing_instruction() {
    fn accept(decl: &str, rest: &str) {
        assert_eq!(
            run(raw::processing_instruction, decl),
            ok(rest, &decl[..decl.len() - rest.len()])
        );
    }

    accept("<?> ", " ");
    accept("<?style tt = font courier>\n", "\n");
    accept("<?/experiment>", "");
    // XML-style processing instructions are not strictly SGML, but welp
    accept(r#"<?xml-stylesheet href="example.xslt" type="text/xsl"?>>"#, ">");

    run(raw::processing_instruction, "< ?>").unwrap_err();
}

#[test]
fn raw_test_start_tag_empty() {
    assert_eq!(run(raw::empty_start_tag, "<> ok"), ok(" ok", "<>"));

    run(raw::empty_start_tag, "< a>").unwrap_err();
}

fn attribute(input: &str) -> Result<(String, (String, Option<String>)), Failure> {
    let v = chars(input);
    raw::attribute(&v, 0).map(|((name, value), rest)| {
        (rest_of(&v, rest), (text_of(&v, name), value.map(|(span, _)| text_of(&v, span))))
    })
}

fn attr(rest: &str, name: &str, value: Option<&str>) -> Result<(String, (String, Option<String>)), Failure> {
    Ok((rest.to_string(), (name.to_string(), value.map(|v| v.to_string()))))
}

#[test]
fn test_attribute() {
    assert_eq!(attribute("foo=bar"), attr("", "foo", Some("bar")));
    assert_eq!(attribute("foo = bar"), attr("", "foo", Some("bar")));
    assert_eq!(attribute("foo = 123"), attr("", "foo", Some("123")));
    assert_eq!(attribute("foo= #ff0000"), attr("", "foo", Some("#ff0000")));
    assert_eq!(attribute("checked "), attr(" ", "checked", None));
    assert_eq!(attribute("usemap>"), attr(">", "usemap", None));
    assert_eq!(attribute("foo='quoted \">'"), attr("", "foo", Some("quoted \">")));
    assert_eq!(attribute("foo = \"quoted '>\""), attr("", "foo", Some("quoted '>")));
    assert_eq!(attribute("foo = \"quoted \">\""), attr(">\"", "foo", Some("quoted ")));
    assert_eq!(attribute("foo='<!-- comment' -->"), attr(" -->", "foo", Some("<!-- comment")));
    assert_eq!(
        attribute("foo='<!SGML \"ex'ample\">"),
        attr("ample\">", "foo", Some("<!SGML \"ex"))
    );
    assert_eq!(attribute("foo=\"<![IGNORE[x\"]]>"), attr("]]>", "foo", Some("<![IGNORE[x")));
    assert_eq!(attribute("foo = <bar>"), attr(">", "foo", Some("<bar")));
    assert_eq!(attribute("foo = value'>"), attr("'>", "foo", Some("value")));
    attribute("foo='value").unwrap_err();
    attribute("foo=\"value").unwrap_err();
    attribute("foo =").unwrap_err();
    attribute("foo = >").unwrap_err();
}

fn end_tag(input: &str) -> Result<(String, Option<String>), Failure> {
    let v = chars(input);
    raw::end_tag(&v, 0).map(|(name, rest)| (rest_of(&v, rest), name.map(|span| text_of(&v, span))))
}

#[test]
fn raw_test_end_tag() {
    assert_eq!(end_tag("</x>"), Ok(("".to_string(), Some("x".to_string()))));
    assert_eq!(end_tag("</foo\n>"), Ok(("".to_string(), Some("foo".to_string()))));
    assert_eq!(end_tag("</>"), Ok(("".to_string(), None)));
    end_tag("< /foo>").unwrap_err();
    end_tag("</ foo>").unwrap_err();
    end_tag("</ >").unwrap_err();
}

fn text(input: &str, mse: MarkedSectionEndHandling) -> Result<(String, String), Failure> {
    let v = chars(input);
    raw::text(&v, 0, mse).map(|(span, rest)| (rest_of(&v, rest), text_of(&v, span)))
}

#[test]
fn test_text() {
    for eom in MSE_MODES {
        assert_eq!(text("foo", eom), ok("", "foo"));
        assert_eq!(text("foo>", eom), ok("", "foo>"));

        assert_eq!(text("foo<x", eom), ok("<x", "foo"));
        assert_eq!(text("foo<bar>", eom), ok("<bar>", "foo"));
        assert_eq!(text("foo<>", eom), ok("<>", "foo"));
        assert_eq!(text("foo</x", eom), ok("</x", "foo"));
        assert_eq!(text("foo</>", eom), ok("</>", "foo"));

        assert_eq!(text("foo<", eom), ok("", "foo<"));
        assert_eq!(text("foo< ", eom), ok("", "foo< "));
        assert_eq!(text("foo<3", eom), ok("", "foo<3"));
        assert_eq!(text("foo< x", eom), ok("", "foo< x"));

        assert_eq!(text("foo<<", eom), ok("", "foo<<"));
        assert_eq!(text("foo<<<", eom), ok("", "foo<<<"));
        assert_eq!(text("foo<<<x", eom), ok("<x", "foo<<"));
        assert_eq!(text("foo<1<2<three<4", eom), ok("<three<4", "foo<1<2"));
        assert_eq!(text("foo<<x<", eom), ok("<x<", "foo<"));
        assert_eq!(text("<123", eom), ok("", "<123"));
        assert_eq!(text("<123</x", eom), ok("</x", "<123"));

        assert_eq!(text("foo<!", eom), ok("", "foo<!"));
        assert_eq!(text("foo<! ", eom), ok("", "foo<! "));
        assert_eq!(text("foo<!-", eom), ok("<!-", "foo"));
        assert_eq!(text("foo<!x", eom), ok("<!x", "foo"));
        assert_eq!(text("foo<![", eom), ok("<![", "foo"));
        assert_eq!(text("foo<! x", eom), ok("", "foo<! x"));
        assert_eq!(text("foo<! -", eom), ok("", "foo<! -"));
        assert_eq!(text("foo<! [", eom), ok("", "foo<! ["));

        text("<foo", eom).unwrap_err();
        text("</foo>", eom).unwrap_err();
    }

    assert_eq!(text("foo<]]><bar>", TreatAsText), ok("<bar>", "foo<]]>"));
    assert_eq!(text("]]><bar>", TreatAsText), ok("<bar>", "]]>"));

    assert_eq!(text("foo<]]><bar>", StopParsing), ok("]]><bar>", "foo<"));
    text("]]><bar>", StopParsing).unwrap_err();
}

fn plain_text(input: &str, mse: MarkedSectionEndHandling) -> Result<(String, String), Failure> {
    let v = chars(input);
    raw::plain_text(&v, 0, mse).map(|(span, rest)| (rest_of(&v, rest), text_of(&v, span)))
}

#[test]
fn test_plain_text() {
    for eom in MSE_MODES {
        assert_eq!(plain_text("x<", eom), ok("<", "x"));
        assert_eq!(plain_text("x<foo", eom), ok("<foo", "x"));
        plain_text("<foo", eom).unwrap_err();
        plain_text("<#", eom).unwrap_err();
        plain_text("<", eom).unwrap_err();
        assert_eq!(plain_text("a<b]]>c", eom), ok("<b]]>c", "a"));
        plain_text("<]]>", eom).unwrap_err();
    }

    assert_eq!(plain_text("x]]>", TreatAsText), ok("", "x]]>"));
    assert_eq!(plain_text("x]]>", StopParsing), ok("]]>", "x"));
    assert_eq!(plain_text("a]]>b<c", TreatAsText), ok("<c", "a]]>b"));
    assert_eq!(plain_text("a]]>b<c", StopParsing), ok("]]>b<c", "a"));

    assert_eq!(plain_text("]]>", TreatAsText), ok("", "]]>"));
    plain_text("]]>", StopParsing).unwrap_err();
    assert_eq!(plain_text("]]><", TreatAsText), ok("<", "]]>"));
    plain_text("]]><", StopParsing).unwrap_err();
}

#[test]
fn test_name_and_tags() {
    assert_eq!(run(raw::name, "foo.bar-baz_q:x y"), ok(" y", "foo.bar-baz_q:x"));
    assert_eq!(run(raw::name, "é1 "), ok(" ", "é1"));
    run(raw::name, "1abc").unwrap_err();
    run(raw::name, "").unwrap_err();
    assert!(raw::is_name_start_char('a'));
    assert!(!raw::is_name_start_char('1'));
    assert!(raw::is_name_char('1'));
    assert!(raw::is_name_char(':'));
    assert!(!raw::is_name_char(' '));
    assert_eq!(run(raw::open_start_tag, "<foo bar"), ok(" bar", "foo"));
    run(raw::open_start_tag, "< foo").unwrap_err();
    assert_eq!(run(raw::close_start_tag, "> x"), ok(" x", ">"));
    assert_eq!(run(raw::xml_close_empty_element, "/> x"), ok(" x", "/>"));
    assert_eq!(run(raw::marked_section_end, "]]> x"), ok(" x", "]]>"));
    assert_eq!(run(util::comment, "-- a -- b"), ok(" b", " a "));
    assert_eq!(run(raw::quoted_attribute_value, "'a\"b' c"), ok(" c", "a\"b"));
    assert_eq!(run(raw::unquoted_attribute_value, "ab>c"), ok(">c", "ab"));
    assert_eq!(run(raw::declaration_subset, "[ <!a b> 'x]' ] c"), ok(" c", " <!a b> 'x]' "));
}

#[test]
fn test_spaces_and_comments() {
    let v = chars(" \t\r\n\u{0c} x");
    assert_eq!(util::spaces(&v, 0), 4);
    let v = chars("<!-- a --> <!-- b1 -- -- b2 --><!-- c --> bar");
    assert_eq!(util::comments_and_spaces(&v, 0).map(|rest| rest_of(&v, rest)), Ok("bar".to_string()));
    let v = chars(" \n bar");
    assert_eq!(util::comments_and_spaces(&v, 0).map(|rest| rest_of(&v, rest)), Ok("bar".to_string()));
    let v = chars("<!-- a --> <!-- b --> bar");
    assert_eq!(
        util::comment_declarations(&v, 0).map(|rest| rest_of(&v, rest)),
        Ok(" <!-- b --> bar".to_string())
    );
}

#[test]
fn test_missing_delimiter_is_reported_at_the_partial_match() {
    let v = chars("abc]]");
    let failure = raw::marked_section_body_character_data(&v, 0).unwrap_err();
    assert!(failure.fatal);
    assert_eq!(failure.error.offset, 5);
    assert_eq!(failure.error.char, Some('>'));
    assert_eq!(failure.error.context.len(), 1);
    assert_eq!(failure.error.context[0].0, 3);
    let v = chars("abc");
    let failure = raw::marked_section_body_character_data(&v, 0).unwrap_err();
    assert_eq!(failure.error.char, Some(']'));
    assert_eq!(failure.error.context[0].0, 3);
}

/// Matches the word `foo`, and yields the position after it.
fn foo(input: &[char], pos: usize) -> Option<usize> {
    let word: Vec<char> = "foo".chars().collect();
    if input[pos..].starts_with(&word) {
        Some(pos + 3)
    } else {
        None
    }
}

#[test]
fn test_strip_space_after() {
    let strip_spaces_after = |input: &str| {
        let v = chars(input);
        foo(&v, 0).map(|end| (rest_of(&v, util::spaces(&v, end)), "foo"))
    };
    assert_eq!(strip_spaces_after("foo \n bar"), Some(("bar".to_string(), "foo")));
    assert_eq!(strip_spaces_after("foo\t"), Some(("".to_string(), "foo")));
    assert_eq!(strip_spaces_after("foobar"), Some(("bar".to_string(), "foo")));
}

#[test]
fn test_strip_comments_after() {
    let strip_comments_and_spaces_after = |input: &str| {
        let v = chars(input);
        foo(&v, 0).map(|end| (rest_of(&v, util::comments_and_spaces(&v, end).unwrap()), "foo"))
    };
    assert_eq!(
        strip_comments_and_spaces_after("foo<!-- comment -->bar"),
        Some(("bar".to_string(), "foo"))
    );
    assert_eq!(
        strip_comments_and_spaces_after("foo<!-- a --> <!-- b1 -- -- b2 --><!-- c --> bar"),
        Some(("bar".to_string(), "foo"))
    );
    assert_eq!(
        strip_comments_and_spaces_after("foo\t<!-- bar -->"),
        Some(("".to_string(), "foo"))
    );
    assert_eq!(strip_comments_and_spaces_after("foo \n "), Some(("".to_string(), "foo")));
    assert_eq!(strip_comments_and_spaces_after("foobar"), Some(("bar".to_string(), "foo")));
}
