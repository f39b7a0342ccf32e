use duper::ast::{
    DuperArray, DuperBytes, DuperIdentifier, DuperInner, DuperKey, DuperObject, DuperString,
    DuperValue,
};
use duper::convert::{clean_temporal, encode_bytes};
use duper::diagnostics::{
    check_base64, check_string_format, duplicate_key_findings, duplicate_keys, format_finding, identified_temporal_findings,
    literal_finding, padding_finding, strip_ascii_white_space, string_format, temporal_kind,
    LiteralKind, Severity, StringFormat, TemporalKind,
};
use duper::rejection::{is_duper_content_type, DuperRejection, ErrorKind};

fn plain(inner: DuperInner) -> DuperValue {
    DuperValue { identifier: None, inner }
}

fn bytes(b: &[u8]) -> DuperValue {
    plain(DuperInner::Bytes(DuperBytes::from(b.to_vec())))
}

fn text(s: &str) -> DuperValue {
    plain(DuperInner::String(DuperString::from(s.to_string())))
}

// Bytes as base64

#[test]
fn bytes_become_base64_strings() {
    let out = encode_bytes(bytes(b"hello"));
    assert!(out.eq(&text("aGVsbG8=")));
    assert!(encode_bytes(bytes(b"")).eq(&text("")));
    assert!(encode_bytes(bytes(&[0xfb, 0xff])).eq(&text("+/8=")));
    assert!(encode_bytes(bytes(b"abc")).eq(&text("YWJj")));
}

#[test]
fn nested_bytes_keep_identifiers_and_keys() {
    let inner = DuperValue {
        identifier: Some(DuperIdentifier::try_from("Png".to_string()).unwrap()),
        inner: DuperInner::Bytes(DuperBytes::from(b"hi".to_vec())),
    };
    let value = plain(DuperInner::Object(
        DuperObject::try_from(vec![
            (DuperKey::from("avatar".to_string()), inner),
            (DuperKey::from("n".to_string()), plain(DuperInner::Integer(1))),
            (
                DuperKey::from("list".to_string()),
                plain(DuperInner::Array(DuperArray::from(vec![bytes(b"a")]))),
            ),
        ])
        .unwrap(),
    ));
    let out = encode_bytes(value);
    match out.inner {
        DuperInner::Object(o) => {
            let entries = o.into_inner();
            assert_eq!(entries[0].0.as_str(), "avatar");
            assert_eq!(entries[0].1.identifier.as_ref().unwrap().as_str(), "Png");
            assert!(entries[0].1.eq(&text("aGk=")));
            assert!(entries[1].1.eq(&plain(DuperInner::Integer(1))));
            assert!(entries[2].1.eq(&plain(DuperInner::Array(DuperArray::from(vec![text("YQ==")])))));
        },
        other => panic!("unexpected {:?}", other),
    }
}

// Temporal text

#[test]
fn temporal_text_loses_annotations_and_space() {
    assert_eq!(clean_temporal(" 2024-01-01T00:00:00Z[UTC] "), "2024-01-01T00:00:00Z");
    assert_eq!(clean_temporal("  12:00\t"), "12:00");
    assert_eq!(clean_temporal("[x]"), "");
    assert_eq!(clean_temporal("2024-03-20"), "2024-03-20");
    assert_eq!(clean_temporal("\u{3000}P1D\u{a0}"), "P1D");
}

// Duplicate keys

#[test]
fn duplicate_keys_are_flagged_after_the_first() {
    let keys = vec![
        Some("a".to_string()),
        Some("b".to_string()),
        Some("a".to_string()),
        None,
        Some("b".to_string()),
        None,
    ];
    assert_eq!(duplicate_keys(&keys), vec![false, false, true, false, true, false]);
    assert_eq!(duplicate_keys(&vec![]), Vec::<bool>::new());
}

// Base64 bytes

#[test]
fn base64_padding_checks() {
    assert!(check_base64("aGVsbG8=").is_none());
    assert!(check_base64("aGVs\n bG8=").is_none());
    let missing = check_base64("aGVsbG8").unwrap();
    assert_eq!(missing.severity, Severity::Warning);
    assert_eq!(missing.message, "Missing padding");
    let invalid = check_base64("ab$d").unwrap();
    assert_eq!(invalid.severity, Severity::Error);
    assert!(invalid.message.starts_with("Invalid Base64 bytes: Invalid symbol 36"));
    assert_eq!(strip_ascii_white_space(" a\tb\r\nc\u{c} "), "abc");
}

#[test]
fn padding_finding_from_outcomes() {
    assert!(padding_finding(true, Err("x".to_string())).is_none());
    let f = padding_finding(false, Err("Invalid padding".to_string())).unwrap();
    assert_eq!(f.severity, Severity::Error);
    assert_eq!(f.message, "Invalid Base64 bytes: Invalid padding");
    let f = padding_finding(false, Ok(vec![1])).unwrap();
    assert_eq!(f.message, "Missing padding");
}

// Literals and temporal values

#[test]
fn literal_findings() {
    assert!(literal_finding(LiteralKind::Integer, true).is_none());
    let f = literal_finding(LiteralKind::Integer, false).unwrap();
    assert_eq!(f.message, "Integer cannot be represented with I64\n  = hint: consider using a string instead");
    assert_eq!(literal_finding(LiteralKind::Float, false).unwrap().message, "Float cannot be represented with double");
    assert_eq!(literal_finding(LiteralKind::Temporal, false).unwrap().message, "Invalid Temporal");
}

#[test]
fn temporal_kinds_and_findings() {
    assert_eq!(temporal_kind("Instant"), TemporalKind::Instant);
    assert_eq!(temporal_kind("PlainMonthDay"), TemporalKind::PlainMonthDay);
    assert_eq!(temporal_kind("instant"), TemporalKind::Unspecified);
    let (on_id, on_value) = identified_temporal_findings(TemporalKind::Unspecified, false);
    let on_id = on_id.unwrap();
    assert_eq!(on_id.severity, Severity::Hint);
    assert_eq!(on_id.message, "Identifier has no effect");
    assert_eq!(on_value.unwrap().message, "Invalid Temporal value");
    let (on_id, on_value) = identified_temporal_findings(TemporalKind::Instant, false);
    assert!(on_id.is_none());
    let on_value = on_value.unwrap();
    assert_eq!(on_value.severity, Severity::Error);
    assert_eq!(on_value.message, "Invalid Instant");
    let (on_id, on_value) = identified_temporal_findings(TemporalKind::Duration, true);
    assert!(on_id.is_none() && on_value.is_none());
}

// Strings of well-known formats

#[test]
fn string_formats_by_identifier() {
    assert_eq!(string_format("uuid"), Some(StringFormat::Uuid));
    assert_eq!(string_format("UUIDv4"), Some(StringFormat::Uuid));
    assert_eq!(string_format("Uuid7"), Some(StringFormat::Uuid));
    assert_eq!(string_format("Decimal"), Some(StringFormat::Decimal));
    assert_eq!(string_format("IPv4Address"), Some(StringFormat::Ipv4Address));
    assert_eq!(string_format("Ip4"), Some(StringFormat::Ipv4Address));
    assert_eq!(string_format("ipv6addr"), Some(StringFormat::Ipv6Address));
    assert_eq!(string_format("IP"), Some(StringFormat::IpAddress));
    assert_eq!(string_format("IPAddress"), Some(StringFormat::IpAddress));
    assert_eq!(string_format("IPv4Network"), Some(StringFormat::Ipv4Network));
    assert_eq!(string_format("IPv6Net"), Some(StringFormat::Ipv6Network));
    assert_eq!(string_format("IPNet"), Some(StringFormat::IpNetwork));
    assert_eq!(string_format("Other"), None);
    assert_eq!(string_format("UUIDs"), None);
}

#[test]
fn string_checks_use_the_format_parsers() {
    assert!(check_string_format(StringFormat::Uuid, "f111c275-b4ce-4392-8e5b-19067ce39b53", None).is_none());
    let f = check_string_format(StringFormat::Uuid, "not-a-uuid", None).unwrap();
    assert_eq!(f.severity, Severity::Warning);
    assert!(f.message.starts_with("Invalid UUID: "));
    assert!(check_string_format(StringFormat::Decimal, "120.25", None).is_none());
    assert!(check_string_format(StringFormat::Decimal, "abc", None).unwrap().message.starts_with("Invalid Decimal: "));
    assert!(check_string_format(StringFormat::Ipv4Network, "10.0.0.0/8", None).is_none());
    assert_eq!(
        check_string_format(StringFormat::Ipv4Network, "10.0.0.0", None).unwrap().message,
        "Invalid IPv4 network: invalid IP address syntax"
    );
    assert!(check_string_format(StringFormat::Ipv6Network, "fd00::/8", None).is_none());
    assert!(check_string_format(StringFormat::IpNetwork, "fd00::/8", None).is_none());
    assert_eq!(
        check_string_format(StringFormat::IpNetwork, "nope", None).unwrap().message,
        "Invalid IP network: invalid IP address syntax"
    );
    assert_eq!(
        check_string_format(StringFormat::Ipv4Address, "x", Some("invalid IPv4 address syntax".to_string()))
            .unwrap()
            .message,
        "Invalid IPv4 address: invalid IPv4 address syntax"
    );
    assert!(check_string_format(StringFormat::IpAddress, "::1", None).is_none());
}

#[test]
fn format_finding_messages() {
    assert!(format_finding(StringFormat::Decimal, None).is_none());
    assert_eq!(
        format_finding(StringFormat::Ipv6Address, Some("bad".to_string())).unwrap().message,
        "Invalid IPv6 address: bad"
    );
}

// Rejections

#[test]
fn content_types() {
    assert!(is_duper_content_type(Some("application/duper")));
    assert!(is_duper_content_type(Some("application/x-duper")));
    assert!(!is_duper_content_type(Some("application/json")));
    assert!(!is_duper_content_type(None));
}

#[test]
fn rejection_answers() {
    assert_eq!(DuperRejection::DuperDataError.status(), 400);
    assert_eq!(DuperRejection::DuperSyntaxError.message(), "Failed to parse duper");
    assert_eq!(DuperRejection::MissingDuperContentType.status(), 400);
    assert_eq!(
        DuperRejection::MissingDuperContentType.message(),
        "Content-Type header must be application/duper"
    );
    assert_eq!(DuperRejection::InternalDuperError.status(), 500);
    assert_eq!(DuperRejection::InternalDuperError.message(), "Internal server error");
}

#[test]
fn rejection_for_error_kinds() {
    assert_eq!(DuperRejection::from_kind(ErrorKind::ParseError), DuperRejection::DuperSyntaxError);
    assert_eq!(DuperRejection::from_kind(ErrorKind::InvalidValue), DuperRejection::InternalDuperError);
    assert_eq!(DuperRejection::from_kind(ErrorKind::Custom), DuperRejection::InternalDuperError);
}

#[test]
fn duplicate_keys_become_error_findings() {
    let keys = vec![Some("a".to_string()), Some("a".to_string()), None, Some("b".to_string())];
    let findings = duplicate_key_findings(&keys);
    assert_eq!(findings.len(), 4);
    assert!(findings[0].is_none());
    let f = findings[1].as_ref().unwrap();
    assert_eq!(f.severity, Severity::Error);
    assert_eq!(f.message, "Duplicate key");
    assert!(findings[2].is_none() && findings[3].is_none());
}
