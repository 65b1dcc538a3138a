use sgmlish::parse;
use sgmlish::transforms::normalize_end_tags;
use sgmlish::transforms::NormalizationError;
use sgmlish::transforms::Transform;
use sgmlish::Parser;
use sgmlish::SgmlEvent;
use sgmlish::SgmlFragment;

fn open(name: &str) -> SgmlEvent {
    SgmlEvent::OpenStartTag { name: name.into() }
}

fn end(name: &str) -> SgmlEvent {
    SgmlEvent::EndTag { name: name.into() }
}

fn text(s: &str) -> SgmlEvent {
    SgmlEvent::Character(s.into())
}

fn attribute(name: &str, value: Option<&str>) -> SgmlEvent {
    SgmlEvent::Attribute { name: name.into(), value: value.map(|v| v.to_string()) }
}

fn check_insert_multiple_times_same_index() {
    let fragment = SgmlFragment::from(vec![
        open("IMG"),
        attribute("SRC", Some("example.gif")),
        SgmlEvent::CloseStartTag,
    ]);

    let mut transform = Transform::new();
    transform.insert_at(2, attribute("BORDER", Some("0")));
    transform.insert_at(2, attribute("ISMAP", None));

    let result = transform.apply(fragment);

    assert_eq!(
        result,
        SgmlFragment::from(vec![
            open("IMG"),
            attribute("SRC", Some("example.gif")),
            attribute("BORDER", Some("0")),
            attribute("ISMAP", None),
            SgmlEvent::CloseStartTag,
        ])
    );
}

fn check_remove_multiple_times_same_index() {
    let fragment = SgmlFragment::from(vec![
        open("IMG"),
        attribute("SRC", Some("example.gif")),
        attribute("BORDER", Some("0")),
        attribute("ISMAP", None),
        SgmlEvent::CloseStartTag,
    ]);

    let mut transform = Transform::new();
    transform.remove_at(2);
    transform.remove_at(3);
    transform.remove_at(3);

    let result = transform.apply(fragment);

    assert_eq!(
        result,
        SgmlFragment::from(vec![
            open("IMG"),
            attribute("SRC", Some("example.gif")),
            SgmlEvent::CloseStartTag,
        ])
    );
}

fn check_insert_remove_at_same_index() {
    let fragment = SgmlFragment::from(vec![
        open("A"),
        attribute("HREF", Some("/")),
        SgmlEvent::CloseStartTag,
        text("hello"),
        end("A"),
    ]);

    let mut transform = Transform::new();
    transform.insert_at(1, attribute("NAME", Some("greeting")));
    transform.remove_at(1);
    let result = transform.apply(fragment);

    assert_eq!(
        result,
        SgmlFragment::from(vec![
            open("A"),
            attribute("NAME", Some("greeting")),
            SgmlEvent::CloseStartTag,
            text("hello"),
            end("A"),
        ])
    );
}

#[test]
fn transform_test_insert_multiple_times_same_index() {
    check_insert_multiple_times_same_index();
}

#[test]
fn transform_test_remove_multiple_times_same_index() {
    check_remove_multiple_times_same_index();
}

#[test]
fn transform_test_insert_remove_at_same_index() {
    check_insert_remove_at_same_index();
}

#[test]
fn helper_test_insert_multiple_times_same_index() {
    check_insert_multiple_times_same_index();
}

#[test]
fn helper_test_remove_multiple_times_same_index() {
    check_remove_multiple_times_same_index();
}

#[test]
fn helper_test_insert_remove_at_same_index() {
    check_insert_remove_at_same_index();
}

#[test]
fn test_transform_documented_examples() {
    let fragment = SgmlFragment::from(vec![
        open("A"),
        attribute("HREF", Some("/")),
        SgmlEvent::CloseStartTag,
        text("hello"),
        end("A"),
        text("!"),
    ]);
    let mut transform = Transform::new();
    assert!(transform.is_empty());
    transform.remove_at(1);
    transform.remove_at(5);
    assert!(!transform.is_empty());
    assert_eq!(
        transform.apply(fragment).into_vec(),
        vec![open("A"), SgmlEvent::CloseStartTag, text("hello"), end("A")]
    );

    let fragment = SgmlFragment::from(vec![
        open("A"),
        attribute("HREF", Some("/")),
        SgmlEvent::CloseStartTag,
        text("hello"),
    ]);
    let mut transform = Transform::new();
    transform.insert_at(2, attribute("TARGET", Some("_blank")));
    transform.insert_at(4, end("A"));
    assert_eq!(
        transform.apply(fragment).into_vec(),
        vec![
            open("A"),
            attribute("HREF", Some("/")),
            attribute("TARGET", Some("_blank")),
            SgmlEvent::CloseStartTag,
            text("hello"),
            end("A"),
        ]
    );
}

#[test]
fn test_transform_edge_cases() {
    let fragment = SgmlFragment::from(vec![text("a"), text("b")]);
    // nothing recorded: the fragment stays as it is
    assert_eq!(Transform::new().apply(fragment.clone()), fragment);
    // insertions at the end and after it follow, ordered by position
    let mut transform = Transform::new();
    transform.insert_at(9, text("9"));
    transform.insert_at(2, text("2"));
    transform.insert_at(9, text("9 again"));
    transform.insert_at(usize::MAX, text("last"));
    transform.insert_at(5, text("5"));
    transform.insert_at(0, text("0"));
    transform.remove_at(7);
    transform.remove_at(0);
    assert_eq!(
        transform.apply(fragment).into_vec(),
        vec![text("0"), text("b"), text("2"), text("5"), text("9"), text("9 again"), text("last")]
    );
    // an empty fragment takes insertions too
    let mut transform = Transform::new();
    transform.insert_at(0, text("x"));
    assert_eq!(transform.apply(SgmlFragment::from(vec![])).into_vec(), vec![text("x")]);
}

#[test]
fn test_normalize_end_tags_noop() {
    let fragment = parse(
        r##"
                <root>
                    <foo>hello</foo>
                    <bar>
                        world<!-- -->!
                    </bar>
                </root>
            "##,
    )
    .unwrap();

    let result = normalize_end_tags(fragment.clone()).unwrap();
    assert_eq!(result, fragment);
}

#[test]
fn test_normalize_end_tags_simple() {
    let fragment = parse(
        r##"
                <root>
                    <foo>hello
                    <bar>world!
                </root>
            "##,
    )
    .unwrap();

    let result = normalize_end_tags(fragment).unwrap();
    assert_eq!(
        result,
        parse(
            r##"
                    <root>
                        <foo>hello</foo>
                        <bar>world!</bar>
                    </root>
                "##,
        )
        .unwrap(),
    );
}

#[test]
fn test_normalize_end_tags_insert_before_whitespace() {
    let parser = Parser::builder().trim_whitespace(false).build();
    let fragment = parser
        .parse(
            r##"
                    <root>
                        <foo>
                        <bar>hello
                        <baz>
                        <quux>world!<!-- -->
                        <xyzzy>
                    </root>
                "##,
        )
        .unwrap();

    let expected = parser
        .parse(
            r##"
                    <root>
                        <foo></foo>
                        <bar>hello
                        </bar><baz></baz>
                        <quux>world!</quux>
                        <xyzzy></xyzzy>
                    </root>
                "##,
        )
        .unwrap();
    let result = normalize_end_tags(fragment).unwrap();
    assert_eq!(result, expected,);
}

#[test]
fn test_normalize_end_tags_xml_empty() {
    let fragment = parse(
        r##"
                <foo>
                    <bar/>
                    <baz>Hello
                    <foo x='1'/>
                </foo>
            "##,
    )
    .unwrap();

    let result = normalize_end_tags(fragment).unwrap();
    assert_eq!(
        result,
        parse(
            r##"
                    <foo>
                        <bar></bar>
                        <baz>Hello</baz>
                        <foo x='1'></foo>
                    </foo>
                "##
        )
        .unwrap()
    );
}

#[test]
fn test_normalize_end_tags_unpaired_end() {
    let fragment = parse(
        r##"
                <foo>
                    <bar>a</bar>
                    <baz>
                    </bar>
                </foo>
            "##,
    )
    .unwrap();

    assert_eq!(
        normalize_end_tags(fragment),
        Err(NormalizationError::UnpairedEndTag("bar".to_owned()))
    );
}

#[test]
fn test_normalize_end_tags_empty_tags() {
    for input in ["<a><>x</a>", "<a>x</>", "</b><a><>"] {
        assert_eq!(
            parse(input).unwrap().normalize_end_tags(),
            Err(NormalizationError::EmptyTagNotSupported),
            "{}",
            input
        );
    }
    assert_eq!(
        NormalizationError::EmptyTagNotSupported.to_string(),
        "empty tags (<> and </>) are not supported"
    );
    assert_eq!(
        NormalizationError::UnpairedEndTag("x".into()).to_string(),
        "unpaired end tag: </x>"
    );
    // the end tag that is reported is the first that has no start tag
    assert_eq!(
        parse("<a></b></c></a>").unwrap().normalize_end_tags(),
        Err(NormalizationError::UnpairedEndTag("b".to_owned()))
    );
}

#[test]
fn test_ofx_elision() {
    let fragment = parse(
        "<BANKTRANLIST><DTSTART>20210101<DTEND>20210201<STMTTRN><TRNTYPE>DEBIT</STMTTRN></BANKTRANLIST>",
    )
    .unwrap();
    let events = normalize_end_tags(fragment).unwrap().into_vec();
    let close = SgmlEvent::CloseStartTag;
    assert_eq!(
        events,
        vec![
            open("BANKTRANLIST"),
            close.clone(),
            open("DTSTART"),
            close.clone(),
            text("20210101"),
            end("DTSTART"),
            open("DTEND"),
            close.clone(),
            text("20210201"),
            end("DTEND"),
            open("STMTTRN"),
            close.clone(),
            open("TRNTYPE"),
            close.clone(),
            text("DEBIT"),
            end("TRNTYPE"),
            end("STMTTRN"),
            end("BANKTRANLIST"),
        ]
    );
}

/// The names of the elements that are left open, if the tags nest.
fn open_elements(events: &[SgmlEvent]) -> Option<Vec<String>> {
    let mut stack = vec![];
    for event in events {
        match event {
            SgmlEvent::OpenStartTag { name } => stack.push(name.clone()),
            SgmlEvent::EndTag { name } => {
                if stack.pop().as_ref() != Some(name) {
                    return None;
                }
            }
            _ => {}
        }
    }
    Some(stack)
}

#[test]
fn test_normalized_fragments_are_well_nested() {
    let inputs = [
        "<a><b>x<c>y</b></a>",
        "<a>x<b>y</a>",
        "<a><b/><c d/> <e> </a><f>",
        "<a> <b> <c> </a>",
        "text",
    ];
    for input in inputs {
        let fragment = parse(input).unwrap();
        let normalized = normalize_end_tags(fragment).unwrap();
        assert_eq!(open_elements(normalized.as_slice()), Some(vec![]), "{}", input);
        // what is written parses back to the same events
        let written = normalized.to_string();
        let parsed = parse(&written).unwrap();
        assert_eq!(normalize_end_tags(parsed).unwrap(), normalized, "{}", input);
    }
}

#[test]
fn test_fragment_identifiers_and_trimming() {
    let parser = Parser::builder().trim_whitespace(false).build();
    let fragment = parser.parse(" <Html LANG = en > Hi <?Keep></hTml> ").unwrap();
    assert_eq!(
        fragment.clone().lowercase_identifiers().into_vec(),
        vec![
            open("html"),
            attribute("lang", Some("en")),
            SgmlEvent::CloseStartTag,
            text(" Hi "),
            SgmlEvent::ProcessingInstruction("<?Keep>".into()),
            end("html"),
            text(" "),
        ]
    );
    assert_eq!(
        fragment.clone().uppercase_identifiers().trim_spaces().into_vec(),
        vec![
            open("HTML"),
            attribute("LANG", Some("en")),
            SgmlEvent::CloseStartTag,
            text("Hi"),
            SgmlEvent::ProcessingInstruction("<?Keep>".into()),
            end("HTML"),
        ]
    );
    let indented = parse("\n <P CLASS=\" intro \">\n  Hello, world!\n </P>\n").unwrap();
    let unindented = parse("<P CLASS=\" intro \">Hello, world!</P>").unwrap();
    assert_eq!(indented.trim_spaces(), unindented);
}

#[test]
fn test_fragment_iteration_and_mapping() {
    let fragment = parse("<a b=c>x &#38;amp; y</A>").unwrap();
    let names: Vec<String> = fragment.iter().map(|event| event.to_string()).collect();
    assert_eq!(names, vec!["<a", "b=\"c\"", ">", "x &#38;amp; y", "</A>"]);
    let mapped = fragment.clone().map_identifiers(|name| format!("x:{}", name));
    assert_eq!(
        mapped.into_vec(),
        vec![
            open("x:a"),
            attribute("x:b", Some("c")),
            SgmlEvent::CloseStartTag,
            text("x &amp; y"),
            end("x:A"),
        ]
    );
    // empty end tags have no identifier
    let mapped = SgmlFragment::from(vec![end("")]).map_identifiers(|_| "never".to_string());
    assert_eq!(mapped.into_vec(), vec![end("")]);
}

#[test]
fn test_fragment_expand_entities() {
    let entities = sgmlish::entities::EntityTable::new().define("amp", "&");
    let fragment = SgmlFragment::from(vec![
        open("a"),
        attribute("b", Some("1 &amp; 2")),
        attribute("c", None),
        SgmlEvent::CloseStartTag,
        text("x &amp;&#33;"),
        SgmlEvent::ProcessingInstruction("<?&amp;>".into()),
        end("a"),
    ]);
    assert_eq!(
        fragment.clone().expand_entities(&entities).unwrap().into_vec(),
        vec![
            open("a"),
            attribute("b", Some("1 & 2")),
            attribute("c", None),
            SgmlEvent::CloseStartTag,
            text("x &!"),
            SgmlEvent::ProcessingInstruction("<?&amp;>".into()),
            end("a"),
        ]
    );
    assert_eq!(
        fragment.expand_character_references(),
        Err(sgmlish::entities::EntityError("amp".into()))
    );
    let fragment = SgmlFragment::from(vec![text("&#60;example&#62;")]);
    assert_eq!(
        fragment.expand_character_references().unwrap().into_vec(),
        vec![text("<example>")]
    );
}

#[test]
fn test_normalization_commutes_with_writing_and_parsing() {
    let inputs = [
        "<a><b>x<c>y</b></a>",
        "<BANKTRANLIST><DTSTART>20210101<DTEND>20210201<STMTTRN><TRNTYPE>DEBIT</STMTTRN></BANKTRANLIST>",
        "<a>x<b/>y<c d='e'>",
        "<a> <b>x </a>",
    ];
    for input in inputs {
        let fragment = parse(input).unwrap();
        let left = parse(&normalize_end_tags(fragment.clone()).unwrap().to_string()).unwrap();
        let right = normalize_end_tags(parse(&fragment.to_string()).unwrap()).unwrap();
        assert_eq!(left, right, "{}", input);
    }
}
