//! What an editor reports about the parts of a Duper document: keys that
//! repeat in an object, base64 bytes that lack padding or do not decode,
//! literals that cannot be represented, temporal values that do not fit
//! their type, and strings whose identifier names a well-known format that
//! they do not follow.
use vstd::prelude::*;
use crate::ast::opt_view;
use crate::encoding::{base64_decode, base64_decoded};
use crate::text::{chars_of, push_char, str_eq};

verus! {

/// How serious a finding is.
#[derive(Debug, Clone, Copy, PartialEq, Eq, Structural)]
pub enum Severity {
    Error,
    Warning,
    Hint,
}

/// A finding about one part of a document.
#[derive(Debug)]
pub struct Finding {
    pub severity: Severity,
    pub message: String,
}

/// A finding as plain values.
pub open spec fn finding_view(f: Option<Finding>) -> Option<(Severity, Seq<char>)> {
    match f {
        Some(x) => Some((x.severity, x.message@)),
        None => None,
    }
}

fn finding(severity: Severity, message: String) -> (f: Option<Finding>)
    ensures
        finding_view(f) == Some((severity, message@)),
{
    Some(Finding { severity, message })
}

fn concat(a: &str, b: &str) -> (s: String)
    ensures
        s@ == a@ + b@,
{
    let mut s = a.to_owned();
    s.append(b);
    s
}

// ---------------------------------------------------------------------------
// Duplicate keys
// ---------------------------------------------------------------------------

/// Whether a key, if it could be read, is `k`.
pub open spec fn is_key(key: Option<String>, k: Seq<char>) -> bool {
    key matches Some(e) && e@ == k
}

/// Whether the key at position `i` of an object repeats an earlier key; a
/// key that could not be read (`None`) repeats nothing and is repeated by
/// nothing.
pub open spec fn repeats_key(keys: Seq<Option<String>>, i: int) -> bool {
    keys[i] matches Some(k) && exists|j: int| 0 <= j < i && #[trigger] is_key(keys[j], k@)
}

/// For each key of an object, in order, whether it repeats an earlier key.
pub fn duplicate_keys(keys: &Vec<Option<String>>) -> (flags: Vec<bool>)
    ensures
        flags@.len() == keys@.len(),
        forall|i: int| 0 <= i < keys@.len() ==> flags@[i] == #[trigger] repeats_key(keys@, i),
{
    let mut flags: Vec<bool> = Vec::new();
    let mut i: usize = 0;
    while i < keys.len()
        invariant
            i <= keys@.len(),
            flags@.len() == i,
            forall|m: int| 0 <= m < i ==> flags@[m] == #[trigger] repeats_key(keys@, m),
        decreases keys.len() - i,
    {
        let mut found = false;
        match &keys[i] {
            Some(k) => {
                let mut j: usize = 0;
                while j < i
                    invariant
                        i < keys@.len(),
                        keys@[i as int] == Some(*k),
                        j <= i,
                        found == exists|m: int| 0 <= m < j && #[trigger] is_key(keys@[m], k@),
                    decreases i - j,
                {
                    match &keys[j] {
                        Some(e) => {
                            if str_eq(e.as_str(), k.as_str()) {
                                found = true;
                            }
                        },
                        None => {},
                    }
                    proof {
                        if found {
                            if !(exists|m: int| 0 <= m < j && #[trigger] is_key(keys@[m], k@)) {
                                assert(is_key(keys@[j as int], k@));
                            }
                        } else {
                            assert(!is_key(keys@[j as int], k@));
                        }
                    }
                    j += 1;
                }
            },
            None => {},
        }
        flags.push(found);
        i += 1;
    }
    flags
}

/// The findings for the keys of an object, in order: an error `Duplicate
/// key` for each key that repeats an earlier one, nothing for the others.
pub fn duplicate_key_findings(keys: &Vec<Option<String>>) -> (r: Vec<Option<Finding>>)
    ensures
        r@.len() == keys@.len(),
        forall|i: int|
            0 <= i < keys@.len() ==> finding_view(#[trigger] r@[i]) == if repeats_key(keys@, i) {
                Some((Severity::Error, "Duplicate key"@))
            } else {
                None
            },
{
    let flags = duplicate_keys(keys);
    let mut r: Vec<Option<Finding>> = Vec::new();
    let mut i: usize = 0;
    while i < flags.len()
        invariant
            flags@.len() == keys@.len(),
            forall|m: int| 0 <= m < keys@.len() ==> flags@[m] == #[trigger] repeats_key(keys@, m),
            i <= flags@.len(),
            r@.len() == i,
            forall|m: int|
                0 <= m < i ==> finding_view(#[trigger] r@[m]) == if repeats_key(keys@, m) {
                    Some((Severity::Error, "Duplicate key"@))
                } else {
                    None
                },
        decreases flags.len() - i,
    {
        if flags[i] {
            r.push(finding(Severity::Error, "Duplicate key".to_owned()));
        } else {
            r.push(None);
        }
        i += 1;
    }
    r
}

// ---------------------------------------------------------------------------
// Base64 bytes
// ---------------------------------------------------------------------------

/// ASCII white space: space, tab, line feed, form feed and carriage return.
pub open spec fn is_ascii_white_space(c: char) -> bool {
    c == ' ' || c == '\t' || c == '\n' || c == '\x0C' || c == '\r'
}

/// The characters that are not ASCII white space, in order.
pub open spec fn without_ascii_white_space(s: Seq<char>) -> Seq<char>
    decreases s.len(),
{
    if s.len() == 0 {
        s
    } else if is_ascii_white_space(s.last()) {
        without_ascii_white_space(s.drop_last())
    } else {
        without_ascii_white_space(s.drop_last()).push(s.last())
    }
}

/// Removes the ASCII white space from a text.
pub fn strip_ascii_white_space(text: &str) -> (s: String)
    ensures
        s@ == without_ascii_white_space(text@),
{
    let cs = chars_of(text);
    let mut s = String::new();
    let mut i: usize = 0;
    while i < cs.len()
        invariant
            cs@ == text@,
            i <= cs.len(),
            s@ == without_ascii_white_space(cs@.take(i as int)),
        decreases cs.len() - i,
    {
        let c = cs[i];
        assert(cs@.take(i as int + 1).drop_last() == cs@.take(i as int));
        if !(c == ' ' || c == '\t' || c == '\n' || c == '\x0C' || c == '\r') {
            push_char(&mut s, c);
        }
        i += 1;
    }
    assert(cs@.take(cs.len() as int) == cs@);
    s
}

/// What base64 bytes deserve, given how they decode with canonical padding
/// and with any padding: nothing when canonical; a warning when only the
/// padding is wrong; an error with the decoder's message otherwise.
pub open spec fn base64_finding(
    canonical: Result<Seq<u8>, Seq<char>>,
    lenient: Result<Seq<u8>, Seq<char>>,
) -> Option<(Severity, Seq<char>)> {
    match canonical {
        Ok(_) => None,
        Err(_) => match lenient {
            Ok(_) => Some((Severity::Warning, "Missing padding"@)),
            Err(m) => Some((Severity::Error, "Invalid Base64 bytes: "@ + m)),
        },
    }
}

/// The finding for base64 bytes that did not decode with canonical padding
/// (unless `canonical_ok`), given how they decode with any padding.
pub fn padding_finding(canonical_ok: bool, lenient: Result<Vec<u8>, String>) -> (r: Option<Finding>)
    ensures
        canonical_ok ==> r is None,
        !canonical_ok ==> finding_view(r) == match lenient {
            Ok(_) => Some((Severity::Warning, "Missing padding"@)),
            Err(m) => Some((Severity::Error, "Invalid Base64 bytes: "@ + m@)),
        },
{
    if canonical_ok {
        return None;
    }
    match lenient {
        Ok(_) => finding(Severity::Warning, "Missing padding".to_owned()),
        Err(m) => finding(Severity::Error, concat("Invalid Base64 bytes: ", m.as_str())),
    }
}

/// Checks the text of base64 bytes, white space aside.
pub fn check_base64(text: &str) -> (r: Option<Finding>)
    ensures
        finding_view(r) == base64_finding(
            base64_decoded(without_ascii_white_space(text@), true),
            base64_decoded(without_ascii_white_space(text@), false),
        ),
{
    let unpadded = strip_ascii_white_space(text);
    match base64_decode(unpadded.as_str(), true) {
        Ok(_) => None,
        Err(_) => padding_finding(false, base64_decode(unpadded.as_str(), false)),
    }
}

// ---------------------------------------------------------------------------
// Literals and temporal values
// ---------------------------------------------------------------------------

/// The kinds of literal whose text is checked on its own.
#[derive(Debug, Clone, Copy, PartialEq, Eq, Structural)]
pub enum LiteralKind {
    Integer,
    Float,
    Temporal,
}

/// What an invalid literal of a kind is reported as.
pub open spec fn invalid_literal_message(kind: LiteralKind) -> Seq<char> {
    match kind {
        LiteralKind::Integer => "Integer cannot be represented with I64\n  = hint: consider using a string instead"@,
        LiteralKind::Float => "Float cannot be represented with double"@,
        LiteralKind::Temporal => "Invalid Temporal"@,
    }
}

/// The finding for a literal of the given kind: an error when its text is
/// not valid.
pub fn literal_finding(kind: LiteralKind, valid: bool) -> (r: Option<Finding>)
    ensures
        valid ==> r is None,
        !valid ==> finding_view(r) == Some((Severity::Error, invalid_literal_message(kind))),
{
    if valid {
        return None;
    }
    let m = match kind {
        LiteralKind::Integer => "Integer cannot be represented with I64\n  = hint: consider using a string instead",
        LiteralKind::Float => "Float cannot be represented with double",
        LiteralKind::Temporal => "Invalid Temporal",
    };
    finding(Severity::Error, m.to_owned())
}

/// The temporal types an identifier can name.
#[derive(Debug, Clone, Copy, PartialEq, Eq, Structural)]
pub enum TemporalKind {
    Instant,
    ZonedDateTime,
    PlainDate,
    PlainTime,
    PlainDateTime,
    PlainYearMonth,
    PlainMonthDay,
    Duration,
    /// The identifier names no temporal type.
    Unspecified,
}

/// The temporal type an identifier names.
pub open spec fn temporal_kind_named(name: Seq<char>) -> TemporalKind {
    if name == "Instant"@ {
        TemporalKind::Instant
    } else if name == "ZonedDateTime"@ {
        TemporalKind::ZonedDateTime
    } else if name == "PlainDate"@ {
        TemporalKind::PlainDate
    } else if name == "PlainTime"@ {
        TemporalKind::PlainTime
    } else if name == "PlainDateTime"@ {
        TemporalKind::PlainDateTime
    } else if name == "PlainYearMonth"@ {
        TemporalKind::PlainYearMonth
    } else if name == "PlainMonthDay"@ {
        TemporalKind::PlainMonthDay
    } else if name == "Duration"@ {
        TemporalKind::Duration
    } else {
        TemporalKind::Unspecified
    }
}

/// The temporal type that an identifier names.
pub fn temporal_kind(identifier: &str) -> (k: TemporalKind)
    ensures
        k == temporal_kind_named(identifier@),
{
    if str_eq(identifier, "Instant") {
        TemporalKind::Instant
    } else if str_eq(identifier, "ZonedDateTime") {
        TemporalKind::ZonedDateTime
    } else if str_eq(identifier, "PlainDate") {
        TemporalKind::PlainDate
    } else if str_eq(identifier, "PlainTime") {
        TemporalKind::PlainTime
    } else if str_eq(identifier, "PlainDateTime") {
        TemporalKind::PlainDateTime
    } else if str_eq(identifier, "PlainYearMonth") {
        TemporalKind::PlainYearMonth
    } else if str_eq(identifier, "PlainMonthDay") {
        TemporalKind::PlainMonthDay
    } else if str_eq(identifier, "Duration") {
        TemporalKind::Duration
    } else {
        TemporalKind::Unspecified
    }
}

/// What an identified temporal value that is not valid for its kind is
/// reported as.
pub open spec fn invalid_temporal_message(kind: TemporalKind) -> Seq<char> {
    match kind {
        TemporalKind::Instant => "Invalid Instant"@,
        TemporalKind::ZonedDateTime => "Invalid ZonedDateTime"@,
        TemporalKind::PlainDate => "Invalid PlainDate"@,
        TemporalKind::PlainTime => "Invalid PlainTime"@,
        TemporalKind::PlainDateTime => "Invalid PlainDateTime"@,
        TemporalKind::PlainYearMonth => "Invalid PlainYearMonth"@,
        TemporalKind::PlainMonthDay => "Invalid PlainMonthDay"@,
        TemporalKind::Duration => "Invalid Duration"@,
        TemporalKind::Unspecified => "Invalid Temporal value"@,
    }
}

/// The findings for an identified temporal value, on its identifier and on
/// its value: a hint when the identifier names no temporal type, and an
/// error when the value is not valid for the kind.
pub fn identified_temporal_findings(kind: TemporalKind, valid: bool) -> (r: (
    Option<Finding>,
    Option<Finding>,
))
    ensures
        kind == TemporalKind::Unspecified ==> finding_view(r.0) == Some(
            (Severity::Hint, "Identifier has no effect"@),
        ),
        kind != TemporalKind::Unspecified ==> r.0 is None,
        valid ==> r.1 is None,
        !valid ==> finding_view(r.1) == Some((Severity::Error, invalid_temporal_message(kind))),
{
    let on_identifier = match kind {
        TemporalKind::Unspecified => finding(Severity::Hint, "Identifier has no effect".to_owned()),
        _ => None,
    };
    if valid {
        return (on_identifier, None);
    }
    let m = match kind {
        TemporalKind::Instant => "Invalid Instant",
        TemporalKind::ZonedDateTime => "Invalid ZonedDateTime",
        TemporalKind::PlainDate => "Invalid PlainDate",
        TemporalKind::PlainTime => "Invalid PlainTime",
        TemporalKind::PlainDateTime => "Invalid PlainDateTime",
        TemporalKind::PlainYearMonth => "Invalid PlainYearMonth",
        TemporalKind::PlainMonthDay => "Invalid PlainMonthDay",
        TemporalKind::Duration => "Invalid Duration",
        TemporalKind::Unspecified => "Invalid Temporal value",
    };
    (on_identifier, finding(Severity::Error, m.to_owned()))
}

// ---------------------------------------------------------------------------
// Strings of well-known formats
// ---------------------------------------------------------------------------

/// The well-known formats that an identified string is checked against.
#[derive(Debug, Clone, Copy, PartialEq, Eq, Structural)]
pub enum StringFormat {
    Uuid,
    Decimal,
    Ipv4Address,
    Ipv6Address,
    IpAddress,
    Ipv4Network,
    Ipv6Network,
    IpNetwork,
}

/// Whether the regular expression `pattern` matches somewhere in `text`, as
/// the `regex` crate decides it; false for a pattern that does not compile.
pub uninterp spec fn regex_is_match(pattern: Seq<char>, text: Seq<char>) -> bool;

/// Compiles `pattern` with regex's `Regex::new` and calls `is_match` on
/// `text`; a pattern that does not compile matches nothing. The result is
/// the named match.
#[verifier::external_body]
fn is_match(pattern: &str, text: &str) -> (r: bool)
    ensures
        r == regex_is_match(pattern@, text@),
{
    match regex::Regex::new(pattern) {
        Ok(re) => re.is_match(text),
        Err(_) => false,
    }
}

/// The format an identifier names, by the first of these case-insensitive
/// patterns that matches it whole: `UUID` with an optional version, `Decimal`,
/// then IPv4, IPv6 and IP addresses, then IPv4, IPv6 and IP networks.
pub open spec fn string_format_named(identifier: Seq<char>) -> Option<StringFormat> {
    if regex_is_match("(?i)^UUID(v?\\d)?$"@, identifier) {
        Some(StringFormat::Uuid)
    } else if regex_is_match("(?i)^Decimal$"@, identifier) {
        Some(StringFormat::Decimal)
    } else if regex_is_match("(?i)^IPv?4(Addr(ess)?)?$"@, identifier) {
        Some(StringFormat::Ipv4Address)
    } else if regex_is_match("(?i)^IPv?6(Addr(ess)?)?$"@, identifier) {
        Some(StringFormat::Ipv6Address)
    } else if regex_is_match("(?i)^IP(Addr(ess)?)?$"@, identifier) {
        Some(StringFormat::IpAddress)
    } else if regex_is_match("(?i)^IPv?4Net(work)?$"@, identifier) {
        Some(StringFormat::Ipv4Network)
    } else if regex_is_match("(?i)^IPv?6Net(work)?$"@, identifier) {
        Some(StringFormat::Ipv6Network)
    } else if regex_is_match("(?i)^IPNet(work)?$"@, identifier) {
        Some(StringFormat::IpNetwork)
    } else {
        None
    }
}

/// The well-known format that an identifier names, if any.
pub fn string_format(identifier: &str) -> (r: Option<StringFormat>)
    ensures
        r == string_format_named(identifier@),
{
    if is_match("(?i)^UUID(v?\\d)?$", identifier) {
        Some(StringFormat::Uuid)
    } else if is_match("(?i)^Decimal$", identifier) {
        Some(StringFormat::Decimal)
    } else if is_match("(?i)^IPv?4(Addr(ess)?)?$", identifier) {
        Some(StringFormat::Ipv4Address)
    } else if is_match("(?i)^IPv?6(Addr(ess)?)?$", identifier) {
        Some(StringFormat::Ipv6Address)
    } else if is_match("(?i)^IP(Addr(ess)?)?$", identifier) {
        Some(StringFormat::IpAddress)
    } else if is_match("(?i)^IPv?4Net(work)?$", identifier) {
        Some(StringFormat::Ipv4Network)
    } else if is_match("(?i)^IPv?6Net(work)?$", identifier) {
        Some(StringFormat::Ipv6Network)
    } else if is_match("(?i)^IPNet(work)?$", identifier) {
        Some(StringFormat::IpNetwork)
    } else {
        None
    }
}

/// The message of uuid's error for a text that `Uuid::try_parse` refuses,
/// or `None` when it parses.
pub uninterp spec fn uuid_parse_error(text: Seq<char>) -> Option<Seq<char>>;

/// Calls uuid's `Uuid::try_parse`; an error is returned as its displayed
/// text. The result is the named outcome.
#[verifier::external_body]
fn uuid_error(text: &str) -> (r: Option<String>)
    ensures
        opt_view(r) == uuid_parse_error(text@),
{
    match uuid::Uuid::try_parse(text) {
        Ok(_) => None,
        Err(e) => Some(e.to_string()),
    }
}

/// The message of rust_decimal's error for a text that `Decimal::from_str`
/// refuses, or `None` when it parses.
pub uninterp spec fn decimal_parse_error(text: Seq<char>) -> Option<Seq<char>>;

/// Calls rust_decimal's `Decimal::from_str`; an error is returned as its
/// displayed text. The result is the named outcome.
#[verifier::external_body]
fn decimal_error(text: &str) -> (r: Option<String>)
    ensures
        opt_view(r) == decimal_parse_error(text@),
{
    match text.parse::<rust_decimal::Decimal>() {
        Ok(_) => None,
        Err(e) => Some(e.to_string()),
    }
}

/// The text of ipnet's `AddrParseError`.
pub open spec fn network_syntax_message() -> Seq<char> {
    "invalid IP address syntax"@
}

/// Whether ipnet's `Ipv4Net::from_str` accepts a text.
pub uninterp spec fn ipv4_net_parses(text: Seq<char>) -> bool;

/// Whether ipnet's `Ipv6Net::from_str` accepts a text.
pub uninterp spec fn ipv6_net_parses(text: Seq<char>) -> bool;

/// Whether ipnet's `IpNet::from_str` accepts a text.
pub uninterp spec fn ip_net_parses(text: Seq<char>) -> bool;

/// Calls ipnet's `Ipv4Net::from_str`: no error when the text parses, and
/// otherwise the text of ipnet's `AddrParseError`, which is always the same.
#[verifier::external_body]
fn ipv4_net_error(text: &str) -> (r: Option<String>)
    ensures
        r is None <==> ipv4_net_parses(text@),
        r matches Some(m) ==> m@ == network_syntax_message(),
{
    match text.parse::<ipnet::Ipv4Net>() {
        Ok(_) => None,
        Err(e) => Some(e.to_string()),
    }
}

/// Calls ipnet's `Ipv6Net::from_str`: no error when the text parses, and
/// otherwise the text of ipnet's `AddrParseError`, which is always the same.
#[verifier::external_body]
fn ipv6_net_error(text: &str) -> (r: Option<String>)
    ensures
        r is None <==> ipv6_net_parses(text@),
        r matches Some(m) ==> m@ == network_syntax_message(),
{
    match text.parse::<ipnet::Ipv6Net>() {
        Ok(_) => None,
        Err(e) => Some(e.to_string()),
    }
}

/// Calls ipnet's `IpNet::from_str`: no error when the text parses, and
/// otherwise the text of ipnet's `AddrParseError`, which is always the same.
#[verifier::external_body]
fn ip_net_error(text: &str) -> (r: Option<String>)
    ensures
        r is None <==> ip_net_parses(text@),
        r matches Some(m) ==> m@ == network_syntax_message(),
{
    match text.parse::<ipnet::IpNet>() {
        Ok(_) => None,
        Err(e) => Some(e.to_string()),
    }
}

/// How a format is named in its findings.
pub open spec fn format_label(f: StringFormat) -> Seq<char> {
    match f {
        StringFormat::Uuid => "UUID"@,
        StringFormat::Decimal => "Decimal"@,
        StringFormat::Ipv4Address => "IPv4 address"@,
        StringFormat::Ipv6Address => "IPv6 address"@,
        StringFormat::IpAddress => "IP address"@,
        StringFormat::Ipv4Network => "IPv4 network"@,
        StringFormat::Ipv6Network => "IPv6 network"@,
        StringFormat::IpNetwork => "IP network"@,
    }
}

/// The finding for a string of a format, given the error its parser gave:
/// a warning `Invalid <format>: <error>`, or nothing when it parsed.
pub open spec fn format_finding_of(f: StringFormat, error: Option<Seq<char>>) -> Option<(
    Severity,
    Seq<char>,
)> {
    match error {
        None => None,
        Some(e) => Some((Severity::Warning, "Invalid "@ + format_label(f) + ": "@ + e)),
    }
}

/// The finding for a string of a format, given the error its parser gave.
pub fn format_finding(format: StringFormat, error: Option<String>) -> (r: Option<Finding>)
    ensures
        finding_view(r) == format_finding_of(format, opt_view(error)),
{
    let e = match error {
        None => return None,
        Some(e) => e,
    };
    let label = match format {
        StringFormat::Uuid => "Invalid UUID: ",
        StringFormat::Decimal => "Invalid Decimal: ",
        StringFormat::Ipv4Address => "Invalid IPv4 address: ",
        StringFormat::Ipv6Address => "Invalid IPv6 address: ",
        StringFormat::IpAddress => "Invalid IP address: ",
        StringFormat::Ipv4Network => "Invalid IPv4 network: ",
        StringFormat::Ipv6Network => "Invalid IPv6 network: ",
        StringFormat::IpNetwork => "Invalid IP network: ",
    };
    proof {
        reveal_strlit("Invalid ");
        reveal_strlit(": ");
        reveal_strlit("UUID");
        reveal_strlit("Decimal");
        reveal_strlit("IPv4 address");
        reveal_strlit("IPv6 address");
        reveal_strlit("IP address");
        reveal_strlit("IPv4 network");
        reveal_strlit("IPv6 network");
        reveal_strlit("IP network");
        reveal_strlit("Invalid UUID: ");
        reveal_strlit("Invalid Decimal: ");
        reveal_strlit("Invalid IPv4 address: ");
        reveal_strlit("Invalid IPv6 address: ");
        reveal_strlit("Invalid IP address: ");
        reveal_strlit("Invalid IPv4 network: ");
        reveal_strlit("Invalid IPv6 network: ");
        reveal_strlit("Invalid IP network: ");
    }
    let m = concat(label, e.as_str());
    assert(m@ == "Invalid "@ + format_label(format) + ": "@ + e@);
    finding(Severity::Warning, m)
}

/// The error that checking a string of a format gives: uuid's, rust_decimal's
/// or ipnet's parser decides the UUID, Decimal and network formats, and the
/// address formats take the error of std's address parser from the caller.
pub open spec fn format_error(f: StringFormat, value: Seq<char>, address_error: Option<Seq<char>>) -> Option<
    Seq<char>,
> {
    match f {
        StringFormat::Uuid => uuid_parse_error(value),
        StringFormat::Decimal => decimal_parse_error(value),
        StringFormat::Ipv4Network => if ipv4_net_parses(value) {
            None
        } else {
            Some(network_syntax_message())
        },
        StringFormat::Ipv6Network => if ipv6_net_parses(value) {
            None
        } else {
            Some(network_syntax_message())
        },
        StringFormat::IpNetwork => if ip_net_parses(value) {
            None
        } else {
            Some(network_syntax_message())
        },
        _ => address_error,
    }
}

/// Checks a string that its identifier says is of a well-known format; for
/// the address formats, `address_error` is what std's address parser said
/// of the string.
pub fn check_string_format(format: StringFormat, value: &str, address_error: Option<String>) -> (r:
    Option<Finding>)
    ensures
        finding_view(r) == format_finding_of(
            format,
            format_error(format, value@, opt_view(address_error)),
        ),
{
    let error = match format {
        StringFormat::Uuid => uuid_error(value),
        StringFormat::Decimal => decimal_error(value),
        StringFormat::Ipv4Network => ipv4_net_error(value),
        StringFormat::Ipv6Network => ipv6_net_error(value),
        StringFormat::IpNetwork => ip_net_error(value),
        _ => address_error,
    };
    format_finding(format, error)
}

} // verus!
