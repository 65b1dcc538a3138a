// Deserialization into values, driven by the decisions of the library's
// deserializer. The shapes of the values are described by `Schema`.

use sgmlish::de::structure::EnumAccess;
use sgmlish::de::DeserializationError;
use sgmlish::de::SgmlDeserializer;
use sgmlish::entities::EntityTable;
use sgmlish::Parser;
use sgmlish::SgmlEvent;
use sgmlish::SgmlFragment;

/// The shape of a value.
#[derive(Clone, Debug)]
enum Schema {
    Bool,
    Integer(i128, i128),
    Str,
    Optional(Box<Schema>),
    Sequence(Box<Schema>),
    Tuple(Vec<Schema>),
    Struct(Vec<Field>),
    Enum(Vec<(&'static str, Variant)>),
}

/// A field of a struct: its name, its shape, and whether it may be
/// missing, with the value it has then.
#[derive(Clone, Debug)]
struct Field {
    name: &'static str,
    schema: Schema,
    default: Option<Value>,
}

/// The shape of a variant of an enum.
#[derive(Clone, Debug)]
enum Variant {
    Unit,
    Newtype(Schema),
    Tuple(Vec<Schema>),
    Struct(Vec<Field>),
}

/// A value.
#[derive(Clone, Debug, PartialEq)]
enum Value {
    Unit,
    Bool(bool),
    Integer(i128),
    Str(String),
    Absent,
    Sequence(Vec<Value>),
    Struct(Vec<(&'static str, Value)>),
    Variant(&'static str, Box<Value>),
}

fn field(name: &'static str, schema: Schema) -> Field {
    let default = match schema {
        Schema::Optional(_) => Some(Value::Absent),
        _ => None,
    };
    Field { name, schema, default }
}

fn field_or(name: &'static str, schema: Schema, default: Value) -> Field {
    Field { name, schema, default: Some(default) }
}

fn string(s: &str) -> Value {
    Value::Str(s.to_string())
}

fn message(text: &str) -> DeserializationError {
    DeserializationError::Message(text.to_string())
}

fn read_struct(
    de: &mut SgmlDeserializer,
    fields: &[Field],
) -> Result<Value, DeserializationError> {
    de.push_elt()?;
    let mut map = de.map_access(fields.iter().any(|f| f.name == "$value"));
    let mut values: Vec<Option<Value>> = vec![None; fields.len()];
    while let Some(key) = de.next_key(&mut map)? {
        let source = de.before_value(&mut map);
        match fields.iter().position(|f| f.name == key) {
            Some(index) => {
                if values[index].is_some() {
                    return Err(message("duplicate field"));
                }
                values[index] = Some(read(de, &fields[index].schema)?);
            }
            None => de.read_unit()?,
        }
        de.after_value(source);
    }
    de.pop_elt()?;
    let mut entries = vec![];
    for (f, value) in fields.iter().zip(values) {
        match value.or_else(|| f.default.clone()) {
            Some(value) => entries.push((f.name, value)),
            None => return Err(message("missing field")),
        }
    }
    Ok(Value::Struct(entries))
}

fn read_tuple(
    de: &mut SgmlDeserializer,
    schemas: &[Schema],
) -> Result<Value, DeserializationError> {
    let seq = de.begin_seq();
    let mut items = vec![];
    for schema in schemas {
        if !de.next_element(&seq)? {
            return Err(message("invalid length"));
        }
        items.push(read(de, schema)?);
    }
    Ok(Value::Sequence(items))
}

fn read_variant(
    de: &mut SgmlDeserializer,
    access: EnumAccess,
    variants: &[(&'static str, Variant)],
) -> Result<Value, DeserializationError> {
    let name = de.variant_name(access)?;
    let (name, variant) = match variants.iter().find(|(v, _)| *v == name) {
        Some(found) => found,
        None => return Err(message("unknown variant")),
    };
    let value = match variant {
        Variant::Unit => {
            de.unit_variant(access)?;
            Value::Unit
        }
        Variant::Newtype(schema) => read(de, schema)?,
        Variant::Tuple(schemas) => {
            de.tuple_variant(access)?;
            read_tuple(de, schemas)?
        }
        Variant::Struct(fields) => read_struct(de, fields)?,
    };
    Ok(Value::Variant(name, Box::new(value)))
}

fn read(de: &mut SgmlDeserializer, schema: &Schema) -> Result<Value, DeserializationError> {
    match schema {
        Schema::Bool => Ok(Value::Bool(de.read_bool()?)),
        Schema::Integer(min, max) => Ok(Value::Integer(de.read_integer(*min, *max)?)),
        Schema::Str => Ok(Value::Str(de.consume_text()?)),
        Schema::Optional(inner) => read(de, inner),
        Schema::Sequence(inner) => {
            let seq = de.begin_seq();
            let mut items = vec![];
            while de.next_element(&seq)? {
                items.push(read(de, inner)?);
            }
            Ok(Value::Sequence(items))
        }
        Schema::Tuple(schemas) => read_tuple(de, schemas),
        Schema::Struct(fields) => read_struct(de, fields),
        Schema::Enum(variants) => {
            let access = de.begin_enum()?;
            let value = read_variant(de, access, variants)?;
            de.end_enum(access)?;
            Ok(value)
        }
    }
}

fn from_fragment(fragment: SgmlFragment, schema: &Schema) -> Result<Value, DeserializationError> {
    let mut reader = SgmlDeserializer::from_fragment(fragment)?;
    read(&mut reader, schema)
}

fn record(entries: Vec<(&'static str, Value)>) -> Value {
    Value::Struct(entries)
}

fn variant(name: &'static str, value: Value) -> Value {
    Value::Variant(name, Box::new(value))
}

#[test]
fn test_auto_expansion() {
    let test = Schema::Struct(vec![
        field("attr", Schema::Str),
        field("text", Schema::Str),
        field("rc", Schema::Str),
        field("c", Schema::Str),
    ]);

    let input = r##"
        <test attr="hel<!---->lo&#33;<x></x>">
            <text>hel<!---->lo&#33;<x></x></text>
            <rc><![RCDATA[hel<!---->lo&#33;<x></x>]]></rc>
            <c><![CDATA[hel<!---->lo&#33;<x></x>]]></c>
        </test>
    "##;
    let sgml = sgmlish::parse(input).unwrap();

    let expected = record(vec![
        ("attr", string("hel<!---->lo!<x></x>")),
        ("text", string("hello!")),
        ("rc", string("hel<!---->lo!<x></x>")),
        ("c", string("hel<!---->lo&#33;<x></x>")),
    ]);
    assert_eq!(expected, from_fragment(sgml, &test).unwrap());
}

#[test]
fn test_struct_dollarvalue() {
    let test = Schema::Struct(vec![
        field("HREF", Schema::Str),
        field("TARGET", Schema::Optional(Box::new(Schema::Str))),
        field("$value", Schema::Str),
    ]);

    let input = r#"<A HREF="https://example.com">example<!---->!</A>"#;
    let sgml = sgmlish::parse(input).unwrap();

    let expected = record(vec![
        ("HREF", string("https://example.com")),
        ("TARGET", Value::Absent),
        ("$value", string("example!")),
    ]);
    assert_eq!(expected, from_fragment(sgml, &test).unwrap());
}

#[test]
fn test_element_data() {
    let item = Schema::Struct(vec![field("NAME", Schema::Str), field("SOURCE", Schema::Str)]);

    let input = r#"<ITEM><NAME>Banana</NAME><SOURCE>Store</SOURCE></ITEM>"#;
    let sgml = sgmlish::parse(input).unwrap();

    let expected = record(vec![("NAME", string("Banana")), ("SOURCE", string("Store"))]);
    assert_eq!(expected, from_fragment(sgml, &item).unwrap());
}

/// An implementation of a tiny subset of the Open Financial Exchange (OFX) format.
///
/// Notable aspects:
///
/// * Names are case-sensitive, must be upper-case
/// * Whitespace surrounding tags is ignored
/// * Elements are either data-only (and then closing tag is optional) or "aggregates"
///   (may only directly contain whitespace or other elements; closing tag mandatory)
#[test]
fn test_ofx() {
    let transaction_type = Schema::Enum(vec![
        ("CREDIT", Variant::Unit),
        ("DEBIT", Variant::Unit),
        ("PAYMENT", Variant::Unit),
        ("XFER", Variant::Unit),
    ]);
    let currency =
        Schema::Struct(vec![field("CURRATE", Schema::Str), field("CURSYM", Schema::Str)]);
    let statement_transaction = Schema::Struct(vec![
        field("TRNTYPE", transaction_type),
        field("DTPOSTED", Schema::Str),
        field("TRNAMT", Schema::Str),
        field("FITID", Schema::Str),
        field("MEMO", Schema::Optional(Box::new(Schema::Str))),
        field("CURRENCY", Schema::Optional(Box::new(currency))),
    ]);
    let bank_transaction_list = Schema::Struct(vec![
        field("DTSTART", Schema::Str),
        field("DTEND", Schema::Str),
        field("STMTTRN", Schema::Sequence(Box::new(statement_transaction))),
    ]);

    let input = r##"
        <BANKTRANLIST>
            <DTSTART>20190501</DTSTART>
            <DTEND>20190531</DTEND>
            <STMTTRN>
                <TRNTYPE>PAYMENT</TRNTYPE>
                <DTPOSTED>20190510</DTPOSTED>
                <TRNAMT>-16.40</TRNAMT>
                <FITID>1DFE2867-0DE3-4357-B865-16986CBFC10A
            </STMTTRN>
            <STMTTRN>
                <TRNTYPE>PAYMENT</TRNTYPE>
                <DTPOSTED>20190512</DTPOSTED>
                <TRNAMT>-10.00</TRNAMT>
                <FITID>25518539-814F-4C2C-97E8-3B49A6D48A45
                <MEMO>Example International Payment&nbsp;
                <CURRENCY>
                    <CURRATE>1.1153
                    <CURSYM>EUR
                </CURRENCY>
            </STMTTRN>
            <STMTTRN>
                <TRNTYPE>CREDIT</TRNTYPE>
                <DTPOSTED>20190520</DTPOSTED>
                <TRNAMT>1000.00</TRNAMT>
                <FITID>3088354E-018B-41D1-ABA7-DB8F66F7B2DB
                <MEMO>PAYMENT RECEIVED
            </STMTTRN>
        </BANKTRANLIST>
    "##;

    let entities = EntityTable::new()
        .define("lt", "<")
        .define("gt", ">")
        .define("amp", "&")
        .define("nbsp", " ");
    let sgml = Parser::builder().expand_entities(entities).parse(input).unwrap();
    let sgml = sgmlish::transforms::normalize_end_tags(sgml).unwrap();

    let transaction_list = from_fragment(sgml, &bank_transaction_list).unwrap();
    let transaction = |kind: &'static str,
                       posted: &str,
                       amount: &str,
                       fitid: &str,
                       memo: Value,
                       currency: Value| {
        record(vec![
            ("TRNTYPE", variant(kind, Value::Unit)),
            ("DTPOSTED", string(posted)),
            ("TRNAMT", string(amount)),
            ("FITID", string(fitid)),
            ("MEMO", memo),
            ("CURRENCY", currency),
        ])
    };
    let expected = record(vec![
        ("DTSTART", string("20190501")),
        ("DTEND", string("20190531")),
        (
            "STMTTRN",
            Value::Sequence(vec![
                transaction(
                    "PAYMENT",
                    "20190510",
                    "-16.40",
                    "1DFE2867-0DE3-4357-B865-16986CBFC10A",
                    Value::Absent,
                    Value::Absent,
                ),
                transaction(
                    "PAYMENT",
                    "20190512",
                    "-10.00",
                    "25518539-814F-4C2C-97E8-3B49A6D48A45",
                    string("Example International Payment "),
                    record(vec![("CURRATE", string("1.1153")), ("CURSYM", string("EUR"))]),
                ),
                transaction(
                    "CREDIT",
                    "20190520",
                    "1000.00",
                    "3088354E-018B-41D1-ABA7-DB8F66F7B2DB",
                    string("PAYMENT RECEIVED"),
                    Value::Absent,
                ),
            ]),
        ),
    ]);
    assert_eq!(transaction_list, expected);
    // the amounts as numbers
    match &transaction_list {
        Value::Struct(entries) => match &entries[2].1 {
            Value::Sequence(transactions) => {
                let amounts: Vec<f64> = transactions
                    .iter()
                    .map(|t| match t {
                        Value::Struct(entries) => match &entries[2].1 {
                            Value::Str(amount) => amount.parse().unwrap(),
                            _ => unreachable!(),
                        },
                        _ => unreachable!(),
                    })
                    .collect();
                assert_eq!(amounts, vec![-16.4, -10.0, 1000.0]);
            }
            _ => unreachable!(),
        },
        _ => unreachable!(),
    }
}

#[test]
fn test_html_style_boolean() {
    let input_schema = Schema::Struct(vec![
        field_or("checked", Schema::Bool, Value::Bool(false)),
        field_or("disabled", Schema::Bool, Value::Bool(false)),
    ]);
    let form = Schema::Struct(vec![field("input", Schema::Sequence(Box::new(input_schema)))]);

    let input = r##"
        <FORM>
            <INPUT checked>
            <INPUT disabled="disabled">
        </FORM>
    "##;

    let sgml = Parser::builder().lowercase_names().parse(input).unwrap();
    let sgml = sgmlish::transforms::normalize_end_tags(sgml).unwrap();
    let form = from_fragment(sgml, &form).unwrap();

    let input = |checked: bool, disabled: bool| {
        record(vec![("checked", Value::Bool(checked)), ("disabled", Value::Bool(disabled))])
    };
    assert_eq!(
        form,
        record(vec![("input", Value::Sequence(vec![input(true, false), input(false, true)]))])
    );
}

fn item_schema(second: Schema) -> Schema {
    Schema::Enum(vec![
        ("Unit", Variant::Unit),
        ("Newtype", Variant::Newtype(Schema::Str)),
        ("Tuple", Variant::Tuple(vec![Schema::Integer(0, 255), second])),
        (
            "Struct",
            Variant::Struct(vec![field("name", Schema::Str), field("flag", Schema::Bool)]),
        ),
    ])
}

fn struct_item(name: &str, flag: bool) -> Value {
    variant("Struct", record(vec![("name", string(name)), ("flag", Value::Bool(flag))]))
}

#[test]
fn test_complex_enum() {
    let test =
        Schema::Struct(vec![field("item", Schema::Sequence(Box::new(item_schema(Schema::Str))))]);

    let input = r##"
        <test>
            <item><Unit></Unit></item>
            <item attr="ignored"><Newtype>test</Newtype></item>
            <item><Struct name=hello flag="true"></Struct></item>
            <item><Tuple>1</Tuple><Tuple>Two</Tuple></item>
            <item><Struct name=goodbye><flag>false</flag></Struct></item>
            <item>Unit</item>
        </test>
    "##;
    let sgml = sgmlish::parse(input).unwrap();

    let expected = record(vec![(
        "item",
        Value::Sequence(vec![
            variant("Unit", Value::Unit),
            variant("Newtype", string("test")),
            struct_item("hello", true),
            variant("Tuple", Value::Sequence(vec![Value::Integer(1), string("Two")])),
            struct_item("goodbye", false),
            variant("Unit", Value::Unit),
        ]),
    )]);

    assert_eq!(expected, from_fragment(sgml, &test).unwrap());
}

#[test]
fn test_complex_enum_no_containing_element() {
    let second = Schema::Integer(i16::MIN as i128, i16::MAX as i128);
    let test =
        Schema::Struct(vec![field("$value", Schema::Sequence(Box::new(item_schema(second))))]);

    let input = r##"
        <test>
            <Unit></Unit>
            <Newtype>test</Newtype>
            <Struct name=hello flag="true"></Struct>
            <Tuple>1</Tuple>
            <Tuple>-2</Tuple>
            <Struct flag="false"><name>goodbye</name></Struct>
            <Newtype></Newtype>
            <Unit></Unit>
        </test>
    "##;
    let sgml = sgmlish::parse(input).unwrap();

    let expected = record(vec![(
        "$value",
        Value::Sequence(vec![
            variant("Unit", Value::Unit),
            variant("Newtype", string("test")),
            struct_item("hello", true),
            variant("Tuple", Value::Sequence(vec![Value::Integer(1), Value::Integer(-2)])),
            struct_item("goodbye", false),
            variant("Newtype", string("")),
            variant("Unit", Value::Unit),
        ]),
    )]);

    assert_eq!(expected, from_fragment(sgml, &test).unwrap());
}

#[test]
fn test_sequence_of_tuples() {
    let coordinate = Schema::Integer(i32::MIN as i128, i32::MAX as i128);
    let test = Schema::Struct(vec![field(
        "n",
        Schema::Sequence(Box::new(Schema::Tuple(vec![coordinate.clone(), coordinate]))),
    )]);

    let input = r##"
        <test>
            <n>1</n>
            <n>2</n>
            <n>3</n>
            <n>4</n>
            <n>5</n>
            <n>6</n>
        </test>
    "##;
    let sgml = sgmlish::parse(input).unwrap();

    let pair = |a: i128, b: i128| Value::Sequence(vec![Value::Integer(a), Value::Integer(b)]);
    let expected = record(vec![("n", Value::Sequence(vec![pair(1, 2), pair(3, 4), pair(5, 6)]))]);

    assert_eq!(expected, from_fragment(sgml, &test).unwrap());
}

fn named() -> Schema {
    Schema::Struct(vec![field("name", Schema::Str)])
}

#[test]
fn test_reject_markup_declarations() {
    let input = r##"
        <!DOCTYPE test>
        <test>
            <name>Testing</name>
        </test>
    "##;
    let sgml = sgmlish::parse(input).unwrap();

    let err = from_fragment(sgml, &named()).unwrap_err();
    assert!(matches!(
        err,
        DeserializationError::Unsupported(SgmlEvent::MarkupDeclaration { keyword, body })
            if keyword == "DOCTYPE" && body == "test"
    ));
}

#[test]
fn test_ignore_markup_declarations() {
    let input = r##"
        <!DOCTYPE test>
        <test>
            <name>Testing</name>
        </test>
    "##;
    let sgml = Parser::builder().ignore_markup_declarations(true).parse(input).unwrap();

    let test = from_fragment(sgml, &named()).unwrap();
    assert_eq!(test, record(vec![("name", string("Testing"))]));
}

#[test]
fn test_reject_processing_instructions() {
    let input = r##"
        <test>
            <?experiment>
                <name>Testing</name>
            <?/experiment>
        </test>
    "##;
    let sgml = sgmlish::parse(input).unwrap();

    let err = from_fragment(sgml, &named()).unwrap_err();
    assert!(matches!(
        err,
        DeserializationError::Unsupported(SgmlEvent::ProcessingInstruction(pi)) if pi == "<?experiment>"
    ));
}

#[test]
fn test_enum_by_tag_name_in_a_struct() {
    let background = Schema::Enum(vec![
        ("color", Variant::Newtype(Schema::Str)),
        (
            "gradient",
            Variant::Struct(vec![field("from", Schema::Str), field("to", Schema::Str)]),
        ),
    ]);
    let example = Schema::Struct(vec![field("background", Schema::Sequence(Box::new(background)))]);
    let input = r##"
        <example>
            <background><color>red</color></background>
            <background><gradient from="a" to="b"/></background>
        </example>
    "##;
    let sgml = sgmlish::parse(input).unwrap();
    let expected = record(vec![(
        "background",
        Value::Sequence(vec![
            variant("color", string("red")),
            variant("gradient", record(vec![("from", string("a")), ("to", string("b"))])),
        ]),
    )]);
    assert_eq!(expected, from_fragment(sgml, &example).unwrap());
}

#[test]
fn test_missing_and_mismatched() {
    let sgml = sgmlish::parse("<test><other>x</other></test>").unwrap();
    assert_eq!(from_fragment(sgml, &named()), Err(message("missing field")));
    let sgml = sgmlish::parse("<test><name>x</nam></test>").unwrap();
    assert_eq!(
        from_fragment(sgml, &named()),
        Err(DeserializationError::MismatchedCloseTag {
            expected: "name".into(),
            found: "nam".into()
        })
    );
    let sgml = sgmlish::parse("<test><name>x").unwrap();
    assert_eq!(from_fragment(sgml, &named()), Err(DeserializationError::UnexpectedEof));
    let sgml = sgmlish::parse("text").unwrap();
    assert_eq!(from_fragment(sgml, &named()), Err(DeserializationError::ExpectedStartTag));
}
