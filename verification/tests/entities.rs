use sgmlish::entities::expand_character_references;
use sgmlish::entities::expand_entities;
use sgmlish::entities::expand_parameter_entities;
use sgmlish::entities::EntityError;
use sgmlish::entities::EntityTable;

#[test]
fn test_invalid_refs() {
    fn assert_noop(s: &str) {
        let result = expand_character_references(s);
        assert_eq!(result, Ok(s.into()));
    }

    assert_noop("foo&");
    assert_noop("foo&&");
    assert_noop("foo&;bar");
    assert_noop("foo&&;bar");
    assert_noop("foo&#");
    assert_noop("foo&#;");
    assert_noop("foo&#;bar");
    assert_noop("foo&##bar");
}

#[test]
fn test_invalid_character_ref() {
    let result = expand_character_references("foo&#x110000;bar");
    assert_eq!(result, Err(EntityError("#x110000".to_owned())));
}

#[test]
fn test_expand_character_references_hex() {
    let result = expand_character_references("fo&#x6f; bar &#xFeFf;");
    assert_eq!(result, Ok("foo bar \u{feff}".into()));
}

#[test]
fn test_expand_character_references_missing_semicolon() {
    let result = expand_character_references("fo&#x6f bar &#xFeFf");
    assert_eq!(result, Ok("foo bar \u{feff}".into()));
}

#[test]
fn test_expand_entities_noop() {
    let text = "this string has no references";
    let result = expand_entities(text, &EntityTable::new());
    assert_eq!(result.unwrap(), text);
}

#[test]
fn test_expand_entities_lookup() {
    let entities = EntityTable::new()
        .define("foo", "x")
        .define("bar.x", "y")
        .define("baz", "z")
        .define("qu-ux", "w");
    let result = expand_entities("test &foo;&bar.x; &baz&qu-ux\n", &entities);
    assert_eq!(result, Ok("test xy zw\n".into()));
}

#[test]
fn test_expand_entities_delegates_invalid_hex_char_refs_to_closure() {
    let entities = EntityTable::new().define("#x12345678", "XYZ");
    let result = expand_entities("test &#x12345678 ok", &entities);
    assert_eq!(result, Ok("test XYZ ok".into()));
}

#[test]
fn test_expand_entities_invalid_entity() {
    let entities = EntityTable::new().define("foo", "x");
    let result = expand_entities("test &foo;&bar;", &entities);
    assert_eq!(result, Err(EntityError("bar".into())));
}

#[test]
fn test_expand_entities_invalid_function() {
    let result = expand_entities("foo&#test;bar", &EntityTable::new());
    assert_eq!(result, Err(EntityError("#test".into())));
}

#[test]
fn test_expand_parameter_entities() {
    let entities = EntityTable::new().define("bar.baz", "IGNORE");
    let result = expand_parameter_entities("CDATA %bar.baz ", &entities);
    assert_eq!(result, Ok("CDATA IGNORE ".into()));
}

#[test]
fn test_expand_parameter_entities_ignores_general_entities() {
    let result = expand_parameter_entities("foo &bar;", &EntityTable::new());
    assert_eq!(result, Ok("foo &bar;".into()));
}

#[test]
fn test_expand_parameter_entities_does_not_work_on_character_references() {
    let result = expand_parameter_entities("foo %#32;", &EntityTable::new());
    assert_eq!(result, Ok("foo %#32;".into()));
}

#[test]
fn test_expand_decimal_character_references() {
    let result = expand_character_references("&#60;hello&#44; world&#33;&#62;");
    assert_eq!(result, Ok("<hello, world!>".into()));
}

#[test]
fn test_invalid_decimal_character_ref_is_looked_up() {
    // a number that is no code point goes to the definitions, with its `#`
    let result = expand_character_references("foo&#1234567;bar");
    assert_eq!(result, Err(EntityError("#1234567".to_owned())));
    let entities = EntityTable::new().define("#1234567", "?");
    assert_eq!(expand_entities("foo&#1234567;bar", &entities), Ok("foo?bar".into()));
    // a surrogate is no character either
    let result = expand_character_references("&#xD800;");
    assert_eq!(result, Err(EntityError("#xD800".to_owned())));
    // and neither is a number that does not fit a machine integer
    let result = expand_character_references("&#99999999999999999999;");
    assert_eq!(result, Err(EntityError("#99999999999999999999".to_owned())));
}

#[test]
fn test_first_definition_binds() {
    let entities = EntityTable::new().define("a", "1").define("a", "2");
    assert_eq!(entities.len(), 2);
    assert_eq!(entities.get("a"), Some("1".to_string()));
    assert_eq!(entities.get("b"), None);
    assert_eq!(expand_entities("&a;", &entities), Ok("1".into()));
}

#[test]
fn test_entity_error_message() {
    assert_eq!(EntityError("foo".into()).to_string(), "entity 'foo' is not defined");
    assert_eq!(EntityError("foo".into()).name(), "foo");
}

#[test]
fn test_text_without_references_is_unchanged() {
    let entities = EntityTable::new().define("a", "1");
    for text in ["", "plain", "per%cent", "semi;colon", "#hash"] {
        assert_eq!(expand_entities(text, &entities), Ok(text.to_string()));
    }
    for text in ["", "plain", "amp&ersand;", "semi;colon"] {
        assert_eq!(expand_parameter_entities(text, &entities), Ok(text.to_string()));
    }
}
