use sgmlish::text::escape;
use sgmlish::text::is_blank;
use sgmlish::text::is_sgml_whitespace;

#[test]
fn test_is_sgml_whitespace() {
    assert!(is_sgml_whitespace(' '));
    assert!(is_sgml_whitespace('\t'));
    assert!(is_sgml_whitespace('\r'));
    assert!(is_sgml_whitespace('\n'));
    assert!(!is_sgml_whitespace('a'));
    assert!(!is_sgml_whitespace('\u{0c}'));
    assert!(!is_sgml_whitespace('\u{a0}'));
}

#[test]
fn test_is_blank() {
    assert!(is_blank(""));
    assert!(is_blank(" "));
    assert!(is_blank(" \t\r\n  "));
    assert!(!is_blank("  a\n"));
    assert!(!is_blank("  \u{0c}\n"));
}

fn count(text: &str) -> usize {
    let mut e = escape(text);
    let mut n = 0;
    while e.next().is_some() {
        n += 1;
    }
    n
}

#[test]
fn text_test_escape_noop() {
    assert_eq!(escape("hello!").to_string(), "hello!");
}

#[test]
fn text_test_escape_sequences() {
    assert_eq!(
        escape("hello && <world>").to_string(),
        "hello &#38;&#38; &#60;world&#62;"
    );
}

#[test]
fn text_test_escape_disable_ampersand() {
    let mut esc = escape("hello && <world>");
    esc.set_escape_ampersand(false);
    assert_eq!(esc.to_string(), "hello && &#60;world&#62;");
}

#[test]
fn test_escape_size_hint_bounds() {
    let min = "\u{1f970}\u{1f918}";
    assert_eq!(escape(min).size_hint().0, count(min));
    let max = "<&>";
    assert_eq!(escape(max).size_hint().1, Some(count(max)));
}

fn check_escape_iter() {
    let mut escape = escape("wo<rld");
    assert_eq!(escape.size_hint(), (2, Some(30)));

    assert_eq!(escape.next(), Some('w'));
    assert_eq!(escape.size_hint(), (2, Some(25)));

    assert_eq!(escape.next(), Some('o'));
    assert_eq!(escape.size_hint(), (1, Some(20)));

    assert_eq!(escape.next(), Some('&'));
    assert_eq!(escape.size_hint(), (4 + 1, Some(4 + 15)));

    assert_eq!(escape.next(), Some('#'));
    assert_eq!(escape.size_hint(), (3 + 1, Some(3 + 15)));

    assert_eq!(escape.next(), Some('6'));
    assert_eq!(escape.size_hint(), (2 + 1, Some(2 + 15)));

    assert_eq!(escape.next(), Some('0'));
    assert_eq!(escape.size_hint(), (1 + 1, Some(1 + 15)));

    assert_eq!(escape.next(), Some(';'));
    assert_eq!(escape.size_hint(), (0 + 1, Some(0 + 15)));

    assert_eq!(escape.next(), Some('r'));
    assert_eq!(escape.size_hint(), (1, Some(10)));

    assert_eq!(escape.next(), Some('l'));
    assert_eq!(escape.size_hint(), (1, Some(5)));

    assert_eq!(escape.next(), Some('d'));
    assert_eq!(escape.size_hint(), (0, Some(0)));

    assert_eq!(escape.next(), None);
    assert_eq!(escape.size_hint(), (0, Some(0)));
}

#[test]
fn text_test_escape_iter() {
    check_escape_iter();
}

#[test]
fn data_test_escape_noop() {
    assert_eq!(escape("hello!").to_string(), "hello!");
}

#[test]
fn data_test_escape_sequences() {
    assert_eq!(
        escape("hello && <world>").to_string(),
        "hello &#38;&#38; &#60;world&#62;"
    );
}

#[test]
fn data_test_escape_disable_ampersand() {
    let mut esc = escape("hello && <world>");
    esc.set_escape_ampersand(false);
    assert_eq!(esc.to_string(), "hello && &#60;world&#62;");
}

#[test]
fn data_test_escape_iter() {
    check_escape_iter();
}

#[test]
fn test_escape_after_partial_iteration() {
    let mut esc = escape("a<b&c");
    assert_eq!(esc.next(), Some('a'));
    assert_eq!(esc.next(), Some('&'));
    assert_eq!(esc.next(), Some('#'));
    // the reference that was begun is finished, later ampersands are kept
    esc.set_escape_ampersand(false);
    assert_eq!(esc.to_string(), "60;b&c");
}
