use tomling::{parse, FloatValue, Value};
use tomling::cargo::{Manifest, RustEdition};

#[test]
fn issue_8() {
    // Parsing a deeply nested, unterminated array literal must fail
    // quickly instead of hanging or overflowing the stack.
    parse("a=[[[[[[[[[[[[[[[[[[[[[[[[[[[").unwrap_err();
}

#[test]
fn duplicate_key_rejected() {
    assert!(parse("a = 1\na = 2").is_err());
}

#[test]
fn dotted_extension_of_scalar_rejected() {
    assert!(parse("a = 1\na.b = 2").is_err());
}

#[test]
fn integer_radices_are_equivalent() {
    let doc = parse("a = 0x10\nb = 0o20\nc = 0b10000\nd = 16\ne = 1_000").unwrap();
    assert_eq!(doc.get("a").unwrap().as_i64().unwrap(), 16);
    assert_eq!(doc.get("b").unwrap().as_i64().unwrap(), 16);
    assert_eq!(doc.get("c").unwrap().as_i64().unwrap(), 16);
    assert_eq!(doc.get("d").unwrap().as_i64().unwrap(), 16);
    assert_eq!(doc.get("e").unwrap().as_i64().unwrap(), 1000);
}

#[test]
fn leading_zero_rejected() {
    assert!(parse("a = 01").is_err());
    assert!(parse("a = 0").is_ok());
    assert_eq!(parse("a = 0").unwrap().get("a").unwrap().as_i64(), Some(0));
}

#[test]
fn integer_range_is_signed_64_bit() {
    let doc = parse("a = 9223372036854775807\nb = -9223372036854775808").unwrap();
    assert_eq!(doc.get("a").unwrap().as_i64().unwrap(), i64::MAX);
    assert_eq!(doc.get("b").unwrap().as_i64().unwrap(), i64::MIN);
    assert!(parse("a = 9223372036854775808").is_err());
    assert!(parse("a = -9223372036854775809").is_err());
}

#[test]
fn special_floats() {
    let doc = parse("a = inf\nb = -inf\nc = nan\nd = +inf").unwrap();
    assert!(matches!(
        doc.get("a").unwrap().as_float().unwrap(),
        FloatValue::Infinite { negative: false }
    ));
    assert!(matches!(
        doc.get("b").unwrap().as_float().unwrap(),
        FloatValue::Infinite { negative: true }
    ));
    assert!(matches!(
        doc.get("c").unwrap().as_float().unwrap(),
        FloatValue::NotANumber
    ));
    assert!(matches!(
        doc.get("d").unwrap().as_float().unwrap(),
        FloatValue::Infinite { negative: false }
    ));
    // A parsed `nan` compares unequal to itself, as IEEE-754 asks.
    let nan = doc.get("c").unwrap();
    assert_ne!(nan, nan);
    // An `inf` converts to the infinite float value.
    assert!(f64::INFINITY.is_infinite());
}

#[test]
fn finite_float_literals_keep_their_text() {
    let doc = parse("a = 1.5\nb = -3.25e2\nc = 1_0.2_5\nd = 5e+22").unwrap();
    match doc.get("a").unwrap().as_float().unwrap() {
        FloatValue::Finite { text } => assert_eq!(text, "1.5"),
        _ => panic!(),
    }
    match doc.get("b").unwrap().as_float().unwrap() {
        FloatValue::Finite { text } => {
            assert_eq!(text, "-3.25e2");
            assert_eq!(text.parse::<f64>().unwrap(), -325.0);
        },
        _ => panic!(),
    }
    match doc.get("c").unwrap().as_float().unwrap() {
        FloatValue::Finite { text } => assert_eq!(text, "10.25"),
        _ => panic!(),
    }
    match doc.get("d").unwrap().as_float().unwrap() {
        FloatValue::Finite { text } => assert_eq!(text.parse::<f64>().unwrap(), 5e22),
        _ => panic!(),
    }
}

#[test]
fn array_of_tables_in_input_order() {
    let doc = parse("[[fruit]]\nname=\"a\"\n[[fruit]]\nname=\"b\"").unwrap();
    let fruit = doc.get("fruit").unwrap().as_array().unwrap();
    assert_eq!(fruit.len(), 2);
    let first = fruit.get(0).unwrap().as_table().unwrap();
    assert_eq!(first.get("name").unwrap().as_str().unwrap(), "a");
    let second = fruit.get(1).unwrap().as_table().unwrap();
    assert_eq!(second.get("name").unwrap().as_str().unwrap(), "b");
}

#[test]
fn table_iteration_order_is_lexicographic() {
    let doc = parse("b = 1\nc = 2\na = 3").unwrap();
    assert_eq!(doc.len(), 3);
    assert_eq!(doc.entry_at(0).0, "a");
    assert_eq!(doc.entry_at(1).0, "b");
    assert_eq!(doc.entry_at(2).0, "c");
}

#[test]
fn multiline_string_leading_newline_stripped() {
    let doc = parse("a = \"\"\"\nhello\"\"\"\nb = \"\"\"\n\nx\"\"\"").unwrap();
    // Exactly the one newline right after the opening delimiter goes.
    assert_eq!(doc.get("a").unwrap().as_str().unwrap(), "hello");
    assert_eq!(doc.get("b").unwrap().as_str().unwrap(), "\nx");
}

#[test]
fn literal_strings_are_verbatim() {
    let doc = parse("a = 'no \\escape here'\nb = '''raw\\n'''").unwrap();
    assert_eq!(doc.get("a").unwrap().as_str().unwrap(), "no \\escape here");
    assert_eq!(doc.get("b").unwrap().as_str().unwrap(), "raw\\n");
}

#[test]
fn unicode_bare_keys() {
    // Bare keys take Unicode letters and digits; the key survives intact.
    let doc = parse("caf\u{e9} = 1").unwrap();
    assert_eq!(doc.get("caf\u{e9}").unwrap().as_i64(), Some(1));
    // Punctuation is not a bare-key character.
    assert!(parse("a+b = 1").is_err());
}

#[test]
fn comments_reject_control_characters() {
    assert!(parse("# fine comment\na = 1").is_ok());
    assert!(parse("# bad \u{0007} bell\na = 1").is_err());
    assert!(parse("a = 1 # trailing comment").is_ok());
}

#[test]
fn bare_carriage_return_rejected() {
    assert!(parse("a = 1\r\nb = 2").is_ok());
    assert!(parse("a = 1\rb = 2").is_err());
}

#[test]
fn empty_and_nested_collections() {
    let doc = parse("a = []\nb = [1, [2, 3], {x = 'y'}]\nc = {}\nd = [1, 2,]").unwrap();
    assert!(doc.get("a").unwrap().as_array().unwrap().is_empty());
    let b = doc.get("b").unwrap().as_array().unwrap();
    assert_eq!(b.len(), 3);
    assert_eq!(b.get(0).unwrap().as_i64(), Some(1));
    let inner = b.get(1).unwrap().as_array().unwrap();
    assert_eq!(inner.get(1).unwrap().as_i64(), Some(3));
    let it = b.get(2).unwrap().as_table().unwrap();
    assert_eq!(it.get("x").unwrap().as_str().unwrap(), "y");
    assert!(doc.get("c").unwrap().as_table().unwrap().is_empty());
    assert_eq!(doc.get("d").unwrap().as_array().unwrap().len(), 2);
}

#[test]
fn table_header_context() {
    let doc = parse("[a.b]\nx = 1\n[a.c]\ny = 2\n[a.b.d]\nz = 3").unwrap();
    let a = doc.get("a").unwrap().as_table().unwrap();
    let b = a.get("b").unwrap().as_table().unwrap();
    assert_eq!(b.get("x").unwrap().as_i64(), Some(1));
    assert_eq!(
        b.get("d").unwrap().as_table().unwrap().get("z").unwrap().as_i64(),
        Some(3)
    );
    let c = a.get("c").unwrap().as_table().unwrap();
    assert_eq!(c.get("y").unwrap().as_i64(), Some(2));
}

#[test]
fn conversion_error_from_schema_layer() {
    let doc = parse("edition = 2021").unwrap();
    let err = RustEdition::from_value(doc.get("edition").unwrap()).unwrap_err();
    assert!(err.is_convert());
    let doc = parse("edition = \"2021\"").unwrap();
    let edition = RustEdition::from_value(doc.get("edition").unwrap()).unwrap();
    assert_eq!(edition, RustEdition::E2021);
}

#[test]
fn parse_error_carries_position_and_expectation() {
    let err = match parse("a = @") {
        Err(tomling::Error::Parse(e)) => e,
        _ => panic!(),
    };
    assert!(err.offset() <= 5);
    assert!(!err.expected().is_empty());
}

#[test]
fn empty_document_is_an_empty_table() {
    let doc = parse("").unwrap();
    assert!(doc.is_empty());
    let doc = parse("   \n# only a comment\n").unwrap();
    assert!(doc.is_empty());
}

#[test]
fn values_keep_their_types() {
    let doc = parse("s = 'x'\ni = 3\nb = true\nf = false").unwrap();
    assert!(matches!(doc.get("s").unwrap(), Value::String(_)));
    assert_eq!(doc.get("i").unwrap().as_i64(), Some(3));
    assert_eq!(doc.get("b").unwrap().as_bool(), Some(true));
    assert_eq!(doc.get("f").unwrap().as_bool(), Some(false));
}

#[test]
fn decimal_overflow_to_infinity_rejected() {
    // Only the explicit special literals may produce an infinite value; a
    // decimal literal whose conversion overflows is a parse error.
    assert!(parse("a = 1e400").is_err());
    assert!(parse("a = -1e400").is_err());
    assert!(parse("a = 2e308").is_err());
    assert!(parse("a = 179769313486231581e291").is_err());
    // The largest finite values still parse.
    assert!(parse("a = 1.7976931348623157e308").is_ok());
    assert!(parse("a = -1.7976931348623157e308").is_ok());
    assert!(parse("a = 1e308").is_ok());
    // Underflow toward zero is not an overflow.
    assert!(parse("a = 1e-400").is_ok());
    let doc = parse("a = 1.7976931348623157e308").unwrap();
    match doc.get("a").unwrap().as_float().unwrap() {
        tomling::FloatValue::Finite { text } => {
            assert!(text.parse::<f64>().unwrap().is_finite());
        }
        _ => panic!(),
    }
}

#[test]
fn manifest_schema_errors() {
    // A malformed document is a parse error.
    assert!(matches!(
        Manifest::from_toml("a = @"),
        Err(tomling::Error::Parse(_))
    ));
    // A well-formed document with a wrongly typed section is a conversion
    // error.
    assert!(matches!(
        Manifest::from_toml("[package]\nname = 7"),
        Err(tomling::Error::Convert { .. })
    ));
    assert!(matches!(
        Manifest::from_toml("dependencies = 3"),
        Err(tomling::Error::Convert { .. })
    ));
    // Both git and path on one dependency are refused.
    assert!(matches!(
        Manifest::from_toml("[dependencies]\nx = { git = 'a', path = 'b' }"),
        Err(tomling::Error::Convert { .. })
    ));
    // An empty manifest is fine.
    assert!(Manifest::from_toml("").is_ok());
}

#[test]
fn dotted_array_of_tables_header() {
    let doc = parse("[[a.b]]\nx = 1\n[[a.b]]\nx = 2").unwrap();
    let a = doc.get("a").unwrap().as_table().unwrap();
    let b = a.get("b").unwrap().as_array().unwrap();
    assert_eq!(b.len(), 2);
    assert_eq!(
        b.get(1).unwrap().as_table().unwrap().get("x").unwrap().as_i64(),
        Some(2)
    );
}

#[test]
fn array_of_tables_redefinition_rejected() {
    // An array-of-tables header over an existing scalar is a redefinition.
    assert!(parse("a = 1\n[[a]]\nx = 1").is_err());
    // A key-value through a scalar segment is too.
    assert!(parse("[t]\nx = 1\n[t.x]\ny = 2").is_err());
}
