use sgmlish::marked_sections::MarkedSectionStatus;
use sgmlish::marked_sections::ParseMarkedSectionStatusError;
use sgmlish::SgmlEvent;
use sgmlish::SgmlFragment;

fn open(name: &str) -> SgmlEvent {
    SgmlEvent::OpenStartTag { name: name.into() }
}

fn attribute(name: &str, value: Option<&str>) -> SgmlEvent {
    SgmlEvent::Attribute { name: name.into(), value: value.map(|v| v.to_string()) }
}

#[test]
fn test_event_display() {
    assert_eq!(
        SgmlEvent::MarkupDeclaration { keyword: "DOCTYPE".into(), body: "HTML".into() }
            .to_string(),
        "<!DOCTYPE HTML>"
    );
    assert_eq!(
        SgmlEvent::MarkupDeclaration { keyword: "foo".into(), body: "".into() }.to_string(),
        "<!foo>"
    );
    assert_eq!(
        SgmlEvent::ProcessingInstruction("<?IS10744 FSIDR myurl>".into()).to_string(),
        "<?IS10744 FSIDR myurl>"
    );

    assert_eq!(open("foo").to_string(), "<foo");
    assert_eq!(attribute("foo", Some("bar")).to_string(), "foo=\"bar\"");
    assert_eq!(attribute("foo", None).to_string(), "foo");
    assert_eq!(SgmlEvent::CloseStartTag.to_string(), ">");
    assert_eq!(SgmlEvent::XmlCloseEmptyElement.to_string(), "/>");
    assert_eq!(SgmlEvent::EndTag { name: "foo".into() }.to_string(), "</foo>");
    assert_eq!(SgmlEvent::EndTag { name: "".into() }.to_string(), "</>");

    assert_eq!(SgmlEvent::Character("hello".into()).to_string(), "hello");
}

#[test]
fn test_display_attribute() {
    assert_eq!(attribute("key", None).to_string(), "key");
    assert_eq!(attribute("key", Some("value")).to_string(), "key=\"value\"");
    assert_eq!(attribute("key", Some("va'lue")).to_string(), "key=\"va'lue\"");
    assert_eq!(attribute("key", Some("va\"lue")).to_string(), "key='va\"lue'");
    assert_eq!(attribute("key", Some("va\"lu'e")).to_string(), "key=\"va&#34;lu'e\"");
    assert_eq!(attribute("key", Some("a&o")).to_string(), "key=\"a&#38;o\"");
    assert_eq!(attribute("key", Some("a&o\"")).to_string(), "key=\"a&#38;o&#34;\"");
    assert_eq!(attribute("key", Some("a&o'")).to_string(), "key=\"a&#38;o'\"");
}

#[test]
fn test_display_marked_section_and_text() {
    assert_eq!(
        SgmlEvent::MarkedSection { status_keywords: "CDATA".into(), section: "a<b".into() }
            .to_string(),
        "<![CDATA[a<b]]>"
    );
    assert_eq!(SgmlEvent::Character("a<b>&c".into()).to_string(), "a&#60;b&#62;&#38;c");
}

#[test]
fn test_fragment_display() {
    let fragment = SgmlFragment::from(vec![
        open("A"),
        attribute("HREF", Some("/")),
        attribute("ISMAP", None),
        SgmlEvent::CloseStartTag,
        SgmlEvent::Character("hello".into()),
        SgmlEvent::EndTag { name: "A".into() },
    ]);
    assert_eq!(fragment.len(), 6);
    assert_eq!(fragment.as_slice()[0], open("A"));
    assert_eq!(fragment.to_string(), "<A HREF=\"/\" ISMAP>hello</A>");
    assert_eq!(fragment.clone().into_owned(), fragment);
    assert_eq!(fragment.clone().into_vec().len(), 6);
    assert_eq!(open("A").duplicate(), open("A"));
    assert_eq!(open("A").into_owned(), open("A"));
}

#[test]
fn test_marked_section_status_priority() {
    assert!(MarkedSectionStatus::Ignore > MarkedSectionStatus::CData);
    assert!(MarkedSectionStatus::CData > MarkedSectionStatus::RcData);
    assert!(MarkedSectionStatus::RcData > MarkedSectionStatus::Include);
}

#[test]
fn test_marked_section_status_from_str() {
    assert_eq!("igNore".parse::<MarkedSectionStatus>(), Ok(MarkedSectionStatus::Ignore));
    assert_eq!("cdaTA".parse::<MarkedSectionStatus>(), Ok(MarkedSectionStatus::CData));
    assert_eq!("RcdaTa".parse::<MarkedSectionStatus>(), Ok(MarkedSectionStatus::RcData));
    assert_eq!("IncludE".parse::<MarkedSectionStatus>(), Ok(MarkedSectionStatus::Include));
    assert_eq!("TEmp".parse::<MarkedSectionStatus>(), Ok(MarkedSectionStatus::Include));
    assert_eq!(
        "IGNORED".parse::<MarkedSectionStatus>(),
        Err(ParseMarkedSectionStatusError)
    );
}

#[test]
fn test_marked_section_status_from_keywords() {
    assert_eq!(
        MarkedSectionStatus::from_keywords("ignore cdata"),
        Ok(MarkedSectionStatus::Ignore)
    );
    assert_eq!(
        MarkedSectionStatus::from_keywords("temp include ignore"),
        Ok(MarkedSectionStatus::Ignore)
    );
    assert_eq!(
        MarkedSectionStatus::from_keywords("RCDATA cdata"),
        Ok(MarkedSectionStatus::CData)
    );
    assert_eq!(
        MarkedSectionStatus::from_keywords("ignore unknown temp"),
        Err("unknown".to_string())
    );
}

#[test]
fn test_marked_section_status_edge_cases() {
    assert_eq!(MarkedSectionStatus::from_keywords(""), Ok(MarkedSectionStatus::Include));
    assert_eq!(MarkedSectionStatus::from_keywords(" \t\n"), Ok(MarkedSectionStatus::Include));
    assert_eq!(MarkedSectionStatus::from_keywords("temp"), Ok(MarkedSectionStatus::Include));
    assert_eq!(MarkedSectionStatus::from_keyword("CDATA"), Some(MarkedSectionStatus::CData));
    assert_eq!(MarkedSectionStatus::from_keyword("CDATA "), None);
    assert_eq!(MarkedSectionStatus::default(), MarkedSectionStatus::Include);
    assert_eq!(
        MarkedSectionStatus::RcData.highest(MarkedSectionStatus::CData),
        MarkedSectionStatus::CData
    );
    assert_eq!(MarkedSectionStatus::Ignore.rank(), 3);
}
