use duper::ast::{DuperFloat, DuperInner, DuperValue};
use duper::builder::{parse_integer, DuperBuilder, ParseNode, Rule};
use duper::serializer::Serializer;

fn node(rule: Rule, text: &str, children: Vec<ParseNode>) -> ParseNode {
    ParseNode { rule, text: text.to_string(), start: 0, end: text.len(), children, float: None }
}

fn leaf(rule: Rule, text: &str) -> ParseNode {
    node(rule, text, vec![])
}

fn value(inner: ParseNode) -> ParseNode {
    node(Rule::Other("duper_value".to_string()), "", vec![inner])
}

fn named_value(id: &str, inner: ParseNode) -> ParseNode {
    node(Rule::Other("duper_value".to_string()), "", vec![leaf(Rule::Identifier, id), inner])
}

fn decimal(text: &str) -> ParseNode {
    value(node(Rule::Integer, text, vec![leaf(Rule::DecimalInteger, text)]))
}

fn quoted(content: &str) -> ParseNode {
    node(Rule::String, content, vec![leaf(Rule::Other("inner".to_string()), content)])
}

fn entry(key: ParseNode, v: ParseNode) -> ParseNode {
    node(Rule::Other("object_entry".to_string()), "", vec![key, v])
}

fn trunk(inner: ParseNode) -> ParseNode {
    node(Rule::Other("duper_trunk".to_string()), "", vec![inner])
}

fn compact(v: DuperValue) -> String {
    Serializer::new().serialize(v)
}

#[test]
fn integers_read_like_from_str_radix() {
    assert_eq!(parse_integer("1337", 10), Some(1337));
    assert_eq!(parse_integer("-42", 10), Some(-42));
    assert_eq!(parse_integer("+7", 10), Some(7));
    assert_eq!(parse_integer("ff", 16), Some(255));
    assert_eq!(parse_integer("FF", 16), Some(255));
    assert_eq!(parse_integer("777", 8), Some(511));
    assert_eq!(parse_integer("101", 2), Some(5));
    assert_eq!(parse_integer("9223372036854775807", 10), Some(i64::MAX));
    assert_eq!(parse_integer("-9223372036854775808", 10), Some(i64::MIN));
    assert_eq!(parse_integer("9223372036854775808", 10), None);
    assert_eq!(parse_integer("", 10), None);
    assert_eq!(parse_integer("-", 10), None);
    assert_eq!(parse_integer("12a", 10), None);
    assert_eq!(parse_integer("2", 2), None);
}

#[test]
fn builds_an_object_trunk() {
    let tree = trunk(node(
        Rule::Object,
        "{duper: 1337}",
        vec![entry(leaf(Rule::PlainKey, "duper"), decimal("1337"))],
    ));
    let v = DuperBuilder::build_duper(tree).unwrap();
    assert!(matches!(v.inner, DuperInner::Object(_)));
    assert_eq!(compact(v), "{duper: 1337}");
}

#[test]
fn builds_a_stream_of_trunks() {
    let first = trunk(node(
        Rule::Array,
        "",
        vec![value(quoted("foobar")), value(leaf(Rule::Boolean, "true"))],
    ));
    let second = trunk(node(
        Rule::Object,
        "",
        vec![entry(leaf(Rule::PlainKey, "duper"), decimal("1337"))],
    ));
    let stream = node(Rule::Other("duper_stream".to_string()), "", vec![first, second]);
    let values = DuperBuilder::build_duper_stream(stream).unwrap();
    assert_eq!(values.len(), 2);
    assert!(matches!(values[0].inner, DuperInner::Array(_)));
    assert!(matches!(values[1].inner, DuperInner::Object(_)));
}

#[test]
fn builds_every_kind_of_value() {
    let hex = value(node(Rule::Integer, "0x1f", vec![leaf(Rule::HexInteger, "0x1f")]));
    let oct = value(node(Rule::Integer, "0o17", vec![leaf(Rule::OctalInteger, "0o17")]));
    let bin = value(node(Rule::Integer, "0b11", vec![leaf(Rule::BinaryInteger, "0b11")]));
    let raw = value(node(Rule::RawString, "r\"a\\b\"", vec![leaf(Rule::Other("raw".to_string()), "a\\b")]));
    let escaped = value(quoted("line\\nbreak \\u00e9"));
    let bytes = value(node(Rule::Bytes, "", vec![leaf(Rule::Other("inner".to_string()), "\\u0041b")]));
    let raw_bytes = value(node(Rule::RawBytes, "", vec![leaf(Rule::Other("raw".to_string()), "xy")]));
    let mut float = leaf(Rule::Float, "2.5");
    float.float = Some(DuperFloat::new(2.5f64.to_bits(), "2.5".to_string()));
    let tuple = value(node(Rule::Tuple, "", vec![value(leaf(Rule::Null, "null")), value(float)]));
    let named = named_value("Flag", leaf(Rule::Boolean, "false"));
    let tree = trunk(node(
        Rule::Array,
        "",
        vec![hex, oct, bin, raw, escaped, bytes, raw_bytes, tuple, named],
    ));
    let v = DuperBuilder::build_duper(tree).unwrap();
    assert_eq!(
        compact(v),
        "[31, 15, 3, \"a\\\\b\", \"line\\nbreak é\", b\"Ab\", b\"xy\", (null, 2.5), Flag(false)]"
    );
}

#[test]
fn keys_may_be_quoted_or_raw() {
    let tree = trunk(node(
        Rule::Object,
        "",
        vec![
            entry(quoted("with space"), decimal("1")),
            entry(node(Rule::RawString, "", vec![leaf(Rule::Other("raw".to_string()), "raw key")]), decimal("2")),
        ],
    ));
    let v = DuperBuilder::build_duper(tree).unwrap();
    assert_eq!(compact(v), "{\"with space\": 1, \"raw key\": 2}");
}

#[test]
fn identifiers_are_kept() {
    let tree = node(
        Rule::Other("duper_trunk".to_string()),
        "",
        vec![leaf(Rule::Identifier, "Point"), node(Rule::Array, "", vec![decimal("1")])],
    );
    let v = DuperBuilder::build_duper(tree).unwrap();
    assert_eq!(v.identifier.as_ref().unwrap().as_str(), "Point");
    assert_eq!(compact(v), "Point([1])");
}

#[test]
fn repeated_keys_are_refused() {
    let mut object = node(
        Rule::Object,
        "",
        vec![
            entry(leaf(Rule::PlainKey, "a"), decimal("1")),
            entry(quoted("a"), decimal("2")),
        ],
    );
    object.start = 3;
    object.end = 9;
    let e = DuperBuilder::build_duper(trunk(object)).unwrap_err();
    assert_eq!(e.message, "duplicate keys in object");
    assert_eq!((e.start, e.end), (3, 9));
}

#[test]
fn rules_out_of_place_are_reported() {
    let e = DuperBuilder::build_duper(trunk(node(Rule::Tuple, "", vec![]))).unwrap_err();
    assert_eq!(e.message, "unexpected rule in trunk tuple");
    let bad_key = trunk(node(
        Rule::Object,
        "",
        vec![entry(leaf(Rule::Other("comment".to_string()), "x"), decimal("1"))],
    ));
    assert_eq!(DuperBuilder::build_duper(bad_key).unwrap_err().message, "unexpected rule in object key comment");
    let bad_value = trunk(node(Rule::Array, "", vec![value(leaf(Rule::Other("weird".to_string()), ""))]));
    assert_eq!(DuperBuilder::build_duper(bad_value).unwrap_err().message, "unexpected rule in value weird");
    let bad_integer = trunk(node(
        Rule::Array,
        "",
        vec![value(node(Rule::Integer, "", vec![leaf(Rule::Other("roman".to_string()), "XII")]))],
    ));
    assert_eq!(
        DuperBuilder::build_duper(bad_integer).unwrap_err().message,
        "unexpected rule in integer value roman"
    );
}

#[test]
fn first_failure_in_order_wins() {
    let tree = trunk(node(
        Rule::Array,
        "",
        vec![value(leaf(Rule::Other("first".to_string()), "")), value(leaf(Rule::Other("second".to_string()), ""))],
    ));
    assert_eq!(DuperBuilder::build_duper(tree).unwrap_err().message, "unexpected rule in value first");
}

#[test]
fn checked_building_reports_malformed_trees() {
    let good = trunk(node(Rule::Array, "", vec![value(quoted("ok"))]));
    assert_eq!(compact(DuperBuilder::try_build_duper(good).unwrap()), "[\"ok\"]");
    let mut bad = trunk(node(Rule::Array, "", vec![value(quoted("\\q"))]));
    bad.start = 1;
    bad.end = 8;
    let e = DuperBuilder::try_build_duper(bad).unwrap_err();
    assert_eq!(e.message, "malformed parse tree");
    assert_eq!((e.start, e.end), (1, 8));
    let missing = trunk(node(Rule::Array, "", vec![value(node(Rule::Integer, "", vec![]))]));
    assert_eq!(DuperBuilder::try_build_duper(missing).unwrap_err().message, "malformed parse tree");
    let big = trunk(node(Rule::Array, "", vec![decimal("99999999999999999999")]));
    assert_eq!(DuperBuilder::try_build_duper(big).unwrap_err().message, "malformed parse tree");
    let stream = node(
        Rule::Other("duper_stream".to_string()),
        "",
        vec![trunk(node(Rule::Array, "", vec![])), trunk(node(Rule::Tuple, "", vec![]))],
    );
    assert_eq!(DuperBuilder::try_build_duper_stream(stream).unwrap_err().message, "unexpected rule in trunk tuple");
}
