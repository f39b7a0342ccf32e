use duper::ast::{
    DuperArray, DuperBytes, DuperIdentifier, DuperInner, DuperKey, DuperObject, DuperString,
    DuperTuple, DuperValue,
};
use duper::visitor::pretty_printer::PrettyPrinter;

fn plain(inner: DuperInner) -> DuperValue {
    DuperValue { identifier: None, inner }
}

fn named(name: &str, inner: DuperInner) -> DuperValue {
    DuperValue { identifier: Some(DuperIdentifier::try_from(name.to_string()).unwrap()), inner }
}

fn string(s: &str) -> DuperValue {
    plain(DuperInner::String(DuperString::from(s.to_string())))
}

fn object(entries: Vec<(&str, DuperValue)>) -> DuperInner {
    DuperInner::Object(
        DuperObject::try_from(
            entries.into_iter().map(|(k, v)| (DuperKey::from(k.to_string()), v)).collect(),
        )
        .unwrap(),
    )
}

fn pretty(value: DuperValue) -> String {
    PrettyPrinter::new(false, 2).pretty_print(value)
}

#[test]
fn empty_object() {
    let value = plain(object(vec![]));
    assert_eq!(pretty(value), "{}");
}

#[test]
fn empty_array() {
    let value = plain(DuperInner::Array(DuperArray::from(vec![])));
    assert_eq!(pretty(value), "[]");
}

#[test]
fn single_element_object() {
    let value = plain(object(vec![("chess", string("✅"))]));
    assert_eq!(pretty(value), "{\n  chess: \"✅\",\n}");
}

#[test]
fn single_element_array() {
    let value = plain(DuperInner::Array(DuperArray::from(vec![plain(DuperInner::Integer(42))])));
    assert_eq!(pretty(value), "[\n  42,\n]");
}

#[test]
fn basic_object() {
    let value = plain(object(vec![
        ("zero", plain(DuperInner::Tuple(DuperTuple::from(vec![])))),
        ("one", plain(DuperInner::Tuple(DuperTuple::from(vec![string("Sandhole")])))),
        (
            "two",
            plain(DuperInner::Tuple(DuperTuple::from(vec![string("rust"), string("pest")]))),
        ),
    ]));
    assert_eq!(
        pretty(value),
        "{\n  zero: (,),\n  one: (\"Sandhole\",),\n  two: (\n    \"rust\",\n    \"pest\",\n  ),\n}"
    );
}

#[test]
fn basic_array() {
    let value = plain(DuperInner::Array(DuperArray::from(vec![
        plain(DuperInner::Bytes(DuperBytes::from(b"foobar".to_vec()))),
        plain(DuperInner::Null),
        plain(DuperInner::Boolean(false)),
    ])));
    assert_eq!(pretty(value), "[\n  b\"foobar\",\n  null,\n  false,\n]");
}

#[test]
fn complex_object() {
    let value = named(
        "Start",
        object(vec![(
            "first object",
            plain(object(vec![(
                "second_object",
                plain(object(vec![
                    (
                        "third object",
                        named(
                            "Msg",
                            DuperInner::String(DuperString::from(
                                "This is a very long string that will push itself into the next line."
                                    .to_string(),
                            )),
                        ),
                    ),
                    ("addendum", plain(DuperInner::Null)),
                ])),
            )])),
        )]),
    );
    let expected = "Start({\n  \"first object\": {\n    second_object: {\n      \"third object\": Msg(\n        \"This is a very long string that will push itself into the next line.\"\n      ),\n      addendum: null,\n    },\n  },\n})\n";
    assert_eq!(pretty(value), expected);
}

#[test]
fn complex_array() {
    let value = plain(DuperInner::Array(DuperArray::from(vec![
        plain(DuperInner::Array(DuperArray::from(vec![plain(DuperInner::Array(
            DuperArray::from(vec![string("So many arrays!")]),
        ))]))),
        string(r#""Hello world!""#),
    ])));
    assert_eq!(
        pretty(value),
        "[\n  [\n    [\n      \"So many arrays!\",\n    ],\n  ],\n  \"\\\"Hello world!\\\"\",\n]"
    );
}

#[test]
fn stripped_identifiers_are_left_out() {
    let value = named("Count", DuperInner::Integer(7));
    assert_eq!(PrettyPrinter::new(true, 2).pretty_print(value), "7");
}

#[test]
fn short_named_string_stays_inline() {
    let value = named("Msg", DuperInner::String(DuperString::from("hi".to_string())));
    assert_eq!(pretty(value), "Msg(\"hi\")");
}

#[test]
fn named_empty_containers() {
    assert_eq!(pretty(named("Obj", object(vec![]))), "Obj({})");
    assert_eq!(pretty(named("Arr", DuperInner::Array(DuperArray::from(vec![])))), "Arr([])");
    assert_eq!(pretty(named("Tup", DuperInner::Tuple(DuperTuple::from(vec![])))), "Tup((,))");
}

#[test]
fn default_printer_indents_by_two() {
    let value = plain(DuperInner::Array(DuperArray::from(vec![plain(DuperInner::Boolean(true))])));
    assert_eq!(PrettyPrinter::default().pretty_print(value), "[\n  true,\n]");
}

#[test]
fn four_space_indentation() {
    let value = plain(DuperInner::Array(DuperArray::from(vec![plain(DuperInner::Integer(-3))])));
    assert_eq!(PrettyPrinter::new(false, 4).pretty_print(value), "[\n    -3,\n]");
}

#[test]
fn stripping_prints_the_stripped_value() {
    let with_ids = named(
        "Outer",
        object(vec![
            ("a", named("Msg", DuperInner::String(DuperString::from("This is a very long string that would wrap when named".to_string())))),
            ("b", named("List", DuperInner::Array(DuperArray::from(vec![named("N", DuperInner::Integer(1))])))),
        ]),
    );
    let without = plain(object(vec![
        ("a", string("This is a very long string that would wrap when named")),
        ("b", plain(DuperInner::Array(DuperArray::from(vec![plain(DuperInner::Integer(1))])))),
    ]));
    assert_eq!(
        PrettyPrinter::new(true, 2).pretty_print(with_ids),
        PrettyPrinter::new(false, 2).pretty_print(without)
    );
}
