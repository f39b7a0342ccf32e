use duper::ast::{
    DuperArray, DuperBytes, DuperFloat, DuperIdentifier, DuperIdentifierTryFromError, DuperInner,
    DuperKey, DuperObject, DuperObjectTryFromError, DuperString, DuperTuple, DuperValue,
};
use duper::format::{
    format_boolean, format_bytes, format_float, format_integer, format_key, format_string,
};
use duper::pretty_printer::PrettyPrinter as LegacyPrinter;
use duper::serializer::Serializer;
use duper::types::{type_of_name, DuperTypes};

fn plain(inner: DuperInner) -> DuperValue {
    DuperValue { identifier: None, inner }
}

fn named(name: &str, inner: DuperInner) -> DuperValue {
    DuperValue { identifier: Some(DuperIdentifier::try_from(name.to_string()).unwrap()), inner }
}

fn integer(n: i64) -> DuperValue {
    plain(DuperInner::Integer(n))
}

fn string(s: &str) -> DuperValue {
    plain(DuperInner::String(DuperString::from(s.to_string())))
}

fn object(entries: Vec<(&str, DuperValue)>) -> DuperInner {
    DuperInner::Object(
        DuperObject::try_from(
            entries.into_iter().map(|(k, v)| (DuperKey::from(k.to_string()), v)).collect(),
        )
        .unwrap(),
    )
}

fn float(f: f64) -> DuperValue {
    plain(DuperInner::Float(DuperFloat::new(f.to_bits(), f.to_string())))
}

// Identifiers

#[test]
fn identifier_accepts_well_formed_names() {
    let id = DuperIdentifier::try_from("Foo-Bar_baz9".to_string()).unwrap();
    assert_eq!(id.as_str(), "Foo-Bar_baz9");
    assert_eq!(DuperIdentifier::try_from("A-".to_string()).unwrap().into_inner(), "A-");
}

#[test]
fn identifier_refuses_empty_text() {
    assert!(matches!(
        DuperIdentifier::try_from(String::new()),
        Err(DuperIdentifierTryFromError::EmptyIdentifier)
    ));
}

#[test]
fn identifier_refuses_lower_case_start() {
    match DuperIdentifier::try_from("foo".to_string()) {
        Err(DuperIdentifierTryFromError::InvalidChar(s, 0)) => assert_eq!(s, "foo"),
        other => panic!("unexpected {:?}", other),
    }
}

#[test]
fn identifier_refuses_double_separator_at_its_byte_offset() {
    match DuperIdentifier::try_from("Ab--c".to_string()) {
        Err(DuperIdentifierTryFromError::InvalidChar(_, p)) => assert_eq!(p, 3),
        other => panic!("unexpected {:?}", other),
    }
    match DuperIdentifier::try_from("Aé!".to_string()) {
        Err(DuperIdentifierTryFromError::InvalidChar(_, p)) => assert_eq!(p, 3),
        other => panic!("unexpected {:?}", other),
    }
}

#[test]
fn lossy_identifier_rewrites() {
    let lossy = |s: &str| DuperIdentifier::try_from_lossy(s.to_string()).map(|i| i.into_inner());
    assert_eq!(lossy("hello world").unwrap(), "Helloworld");
    assert_eq!(lossy("Foo bar").unwrap(), "Foobar");
    assert_eq!(lossy("a--b").unwrap(), "A-b");
    assert_eq!(lossy("Foo!!").unwrap(), "Foo");
    assert_eq!(lossy("ß").unwrap(), "SS");
}

#[test]
fn lossy_identifier_keeps_untouched_names() {
    let lossy = |s: &str| DuperIdentifier::try_from_lossy(s.to_string()).unwrap().into_inner();
    assert_eq!(lossy("Valid-Name_1"), "Valid-Name_1");
    assert_eq!(lossy("A--B"), "A--B");
}

#[test]
fn lossy_identifier_errors() {
    assert!(matches!(
        DuperIdentifier::try_from_lossy(String::new()),
        Err(DuperIdentifierTryFromError::EmptyIdentifier)
    ));
    assert!(matches!(
        DuperIdentifier::try_from_lossy("1abc".to_string()),
        Err(DuperIdentifierTryFromError::InvalidChar(_, 0))
    ));
}

// Containers

#[test]
fn object_refuses_repeated_key() {
    let entries = vec![
        (DuperKey::from("a".to_string()), integer(1)),
        (DuperKey::from("b".to_string()), integer(2)),
        (DuperKey::from("a".to_string()), integer(3)),
    ];
    match DuperObject::try_from(entries) {
        Err(DuperObjectTryFromError::DuplicateKey(k)) => assert_eq!(k, "a"),
        Ok(_) => panic!("duplicate accepted"),
    }
}

#[test]
fn object_keeps_entries_in_order() {
    let o = DuperObject::try_from(vec![
        (DuperKey::from("x".to_string()), integer(1)),
        (DuperKey::from("y".to_string()), integer(2)),
    ])
    .unwrap();
    assert_eq!(o.len(), 2);
    assert!(!o.is_empty());
    let entries = o.into_inner();
    assert_eq!(entries[0].0.as_str(), "x");
    assert_eq!(entries[1].0.clone().into_inner(), "y");
}

#[test]
fn array_and_tuple_access() {
    let a = DuperArray::from(vec![integer(1), integer(2)]);
    assert_eq!(a.len(), 2);
    assert!(a.get(1).is_some());
    assert!(a.get(2).is_none());
    let t = DuperTuple::from(vec![]);
    assert!(t.is_empty());
    assert!(t.get(0).is_none());
    assert_eq!(DuperTuple::from(vec![integer(5)]).into_inner().len(), 1);
}

#[test]
fn scalar_wrappers_give_back_their_contents() {
    assert_eq!(DuperString::from("s".to_string()).into_inner(), "s");
    assert_eq!(DuperBytes::from(vec![1, 2]).into_inner(), vec![1, 2]);
    assert_eq!(DuperKey::from("k".to_string()).into_inner(), "k");
    let f = DuperFloat::new(2.5f64.to_bits(), "2.5".to_string());
    assert_eq!(f.to_bits(), 2.5f64.to_bits());
    assert_eq!(f.as_str(), "2.5");
}

// Formatting

#[test]
fn keys_are_bare_only_when_plain() {
    assert_eq!(format_key("snake_case1"), "snake_case1");
    assert_eq!(format_key("with space"), "\"with space\"");
    assert_eq!(format_key("dash-key"), "\"dash-key\"");
    assert_eq!(format_key(""), "");
}

#[test]
fn strings_are_json_escaped() {
    assert_eq!(format_string("a\"b\n"), "\"a\\\"b\\n\"");
    assert_eq!(format_string("\u{1}\t\\"), "\"\\u0001\\t\\\\\"");
    assert_eq!(format_string(""), "\"\"");
    assert_eq!(format_string("✅"), "\"✅\"");
}

#[test]
fn bytes_use_ascii_escapes() {
    assert_eq!(format_bytes(&[0x00, b'a', b'\'', 0xff]), "b\"\\x00a\\'\\xff\"");
    assert_eq!(format_bytes(&[]), "b\"\"");
}

#[test]
fn integers_follow_their_type() {
    assert_eq!(format_integer(-42, None), "-42");
    assert_eq!(format_integer(255, Some(DuperTypes::HexInteger)), "0xff");
    assert_eq!(format_integer(-1, Some(DuperTypes::HexInteger)), "0xffffffffffffffff");
    assert_eq!(format_integer(8, Some(DuperTypes::OctInteger)), "0o10");
    assert_eq!(format_integer(5, Some(DuperTypes::BinInteger)), "0b101");
    assert_eq!(format_integer(i64::MIN, Some(DuperTypes::DecInteger)), "-9223372036854775808");
}

#[test]
fn floats_and_booleans() {
    let f = DuperFloat::new(0.1f64.to_bits(), 0.1f64.to_string());
    assert_eq!(format_float(&f), "0.1");
    assert_eq!(format_boolean(true), "true");
    assert_eq!(format_boolean(false), "false");
}

#[test]
fn type_names() {
    assert_eq!(type_of_name("Integer"), Some(DuperTypes::DecInteger));
    assert_eq!(type_of_name("Datetime"), Some(DuperTypes::IsoDatetime));
    assert_eq!(type_of_name("Jwt"), Some(DuperTypes::Jwt));
    assert_eq!(type_of_name("Nope"), None);
    let id = DuperIdentifier::try_from("Nope".to_string()).unwrap();
    assert_eq!(DuperTypes::try_from(&id).unwrap_err(), "Unsupported type Nope");
    let id = DuperIdentifier::try_from("Cidrv6".to_string()).unwrap();
    assert_eq!(DuperTypes::try_from(&id).unwrap(), DuperTypes::Cidrv6);
}

// Serializer

#[test]
fn serializer_writes_one_line() {
    let value = plain(object(vec![
        ("a", integer(1)),
        (
            "b c",
            plain(DuperInner::Array(DuperArray::from(vec![
                plain(DuperInner::Boolean(true)),
                plain(DuperInner::Null),
            ]))),
        ),
        ("t", plain(DuperInner::Tuple(DuperTuple::from(vec![integer(1)])))),
        ("e", plain(DuperInner::Tuple(DuperTuple::from(vec![])))),
        ("p", plain(DuperInner::Tuple(DuperTuple::from(vec![integer(1), integer(2)])))),
    ]));
    assert_eq!(
        Serializer::new().serialize(value),
        "{a: 1, \"b c\": [true, null], t: (1,), e: (,), p: (1, 2)}"
    );
}

#[test]
fn serializer_writes_identifiers_and_typed_integers() {
    assert_eq!(Serializer::new().serialize(named("HexInteger", DuperInner::Integer(255))), "HexInteger(0xff)");
    assert_eq!(Serializer::new().serialize(named("Count", DuperInner::Integer(3))), "Count(3)");
    let value = named("Point", object(vec![("x", float(1.5)), ("y", string("q"))]));
    assert_eq!(Serializer::new().serialize(value), "Point({x: 1.5, y: \"q\"})");
}

// First-generation pretty printer

#[test]
fn legacy_printer_layout() {
    let value = plain(object(vec![
        ("a", integer(1)),
        ("b", plain(DuperInner::Array(DuperArray::from(vec![integer(2)])))),
    ]));
    assert_eq!(LegacyPrinter::new().serialize(value), "{\na: 1,\nb: [    2,\n  ],\n}");
}

#[test]
fn legacy_printer_named_values() {
    let value = named("Msg", DuperInner::String(DuperString::from("hi".to_string())));
    assert_eq!(LegacyPrinter::new().serialize(value), "Msg(\"hi\")");
    let value = named("Pair", DuperInner::Tuple(DuperTuple::from(vec![integer(1), integer(2)])));
    assert_eq!(LegacyPrinter::new().serialize(value), "Pair((  1,\n  2,\n))");
}

// Equality

#[test]
fn equality_ignores_identifiers_and_entry_order() {
    let a = named("Thing", object(vec![("x", integer(1)), ("y", string("s"))]));
    let b = plain(object(vec![("y", string("s")), ("x", integer(1))]));
    assert!(a.eq(&b));
    let c = plain(object(vec![("y", string("s")), ("x", integer(2))]));
    assert!(!a.eq(&c));
}

#[test]
fn equality_of_floats_follows_doubles() {
    assert!(float(0.0).eq(&float(-0.0)));
    assert!(!float(f64::NAN).eq(&float(f64::NAN)));
    assert!(float(1.25).eq(&float(1.25)));
}

#[test]
fn equality_compares_kinds_and_lengths() {
    let arr = plain(DuperInner::Array(DuperArray::from(vec![integer(1)])));
    let tup = plain(DuperInner::Tuple(DuperTuple::from(vec![integer(1)])));
    assert!(!arr.eq(&tup));
    let longer = plain(DuperInner::Array(DuperArray::from(vec![integer(1), integer(2)])));
    assert!(!arr.eq(&longer));
    let bytes = plain(DuperInner::Bytes(DuperBytes::from(vec![1, 2])));
    assert!(bytes.eq(&plain(DuperInner::Bytes(DuperBytes::from(vec![1, 2])))));
    assert!(!bytes.eq(&plain(DuperInner::Bytes(DuperBytes::from(vec![1, 3])))));
}

#[test]
fn lossy_results_of_ascii_text_are_settled_and_valid() {
    for text in ["hello-world!", "a__b", "Foo--Bar", "x!-!-y", "Zed"] {
        let once = DuperIdentifier::try_from_lossy(text.to_string()).unwrap().into_inner();
        let twice = DuperIdentifier::try_from_lossy(once.clone()).unwrap().into_inner();
        assert_eq!(once, twice);
    }
    for text in ["hello-world!", "a_b c", "x!-!-y"] {
        let id = DuperIdentifier::try_from_lossy(text.to_string()).unwrap().into_inner();
        assert!(DuperIdentifier::try_from(id).is_ok());
    }
    assert!(DuperIdentifier::try_from_lossy("a".to_string()).is_ok());
}

#[test]
fn lossy_results_with_settled_non_ascii_start_are_settled() {
    for text in ["éa b", "Éa", "ñu-!-x", "ßig"] {
        let once = DuperIdentifier::try_from_lossy(text.to_string()).unwrap().into_inner();
        let twice = DuperIdentifier::try_from_lossy(once.clone()).unwrap().into_inner();
        assert_eq!(once, twice);
    }
    assert_eq!(DuperIdentifier::try_from_lossy("éa b".to_string()).unwrap().into_inner(), "Éab");
}
