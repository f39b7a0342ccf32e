//! How keys, strings, bytes and scalars are written in Duper text.
use vstd::prelude::*;
use crate::ast::DuperFloat;
use crate::text::{chars_of, digit_char, push_char, push_radix, push_str, radix_digits};
use crate::types::DuperTypes;

verus! {

/// The JSON escape of one character: quote, backslash and the control
/// characters are escaped, everything else is kept.
pub open spec fn json_escape_char(c: char) -> Seq<char> {
    if c == '"' {
        seq!['\\', '"']
    } else if c == '\\' {
        seq!['\\', '\\']
    } else if c == '\x08' {
        seq!['\\', 'b']
    } else if c == '\t' {
        seq!['\\', 't']
    } else if c == '\n' {
        seq!['\\', 'n']
    } else if c == '\x0c' {
        seq!['\\', 'f']
    } else if c == '\r' {
        seq!['\\', 'r']
    } else if (c as u32) < 0x20 {
        seq!['\\', 'u', '0', '0', digit_char((c as u32 / 16) as nat), digit_char((c as u32 % 16) as nat)]
    } else {
        seq![c]
    }
}

/// The JSON escape of a character sequence.
pub open spec fn json_escaped(s: Seq<char>) -> Seq<char>
    decreases s.len(),
{
    if s.len() == 0 {
        seq![]
    } else {
        json_escaped(s.drop_last()) + json_escape_char(s.last())
    }
}

/// Calls json-escape's `explicit::escape_str` and collects its chunks into a
/// `String`. Its escape table (token.rs) maps `"` and `\` to backslash
/// escapes, backspace, tab, line feed, form feed and carriage return to
/// `\b \t \n \f \r`, every other byte below 0x20 to `\u00XX` with lower-case
/// hex digits, and passes all other characters through: the result is
/// `json_escaped` of the input.
#[verifier::external_body]
fn escape_json(s: &str) -> (r: String)
    ensures
        r@ == json_escaped(s@),
{
    std::borrow::Cow::from(json_escape::explicit::escape_str(s)).into_owned()
}

/// The escape that std's `ascii::escape_default` gives a byte: tab, carriage
/// return, line feed, single quote, double quote and backslash get a
/// backslash escape, other printable ASCII is kept, and every other byte is
/// written `\xNN` with lower-case hex digits.
pub open spec fn byte_escape(b: u8) -> Seq<char> {
    if b == 0x09 {
        seq!['\\', 't']
    } else if b == 0x0d {
        seq!['\\', 'r']
    } else if b == 0x0a {
        seq!['\\', 'n']
    } else if b == 0x27 {
        seq!['\\', '\'']
    } else if b == 0x22 {
        seq!['\\', '"']
    } else if b == 0x5c {
        seq!['\\', '\\']
    } else if 0x20 <= b <= 0x7e {
        seq![b as char]
    } else {
        seq!['\\', 'x', digit_char((b / 16) as nat), digit_char((b % 16) as nat)]
    }
}

/// The escapes of a byte sequence, one after the other.
pub open spec fn bytes_escaped(s: Seq<u8>) -> Seq<char>
    decreases s.len(),
{
    if s.len() == 0 {
        seq![]
    } else {
        bytes_escaped(s.drop_last()) + byte_escape(s.last())
    }
}

/// Whether a text, read from the left with each backslash taking the
/// character after it along, holds no double quote of its own and ends with
/// no backslash left open: such a text can stand between two double quotes
/// and is ended only by the second of them.
pub open spec fn quote_safe(t: Seq<char>) -> bool
    decreases t.len(),
{
    if t.len() == 0 {
        true
    } else if t[0] == '\\' {
        t.len() >= 2 && quote_safe(t.skip(2))
    } else {
        t[0] != '"' && quote_safe(t.skip(1))
    }
}

proof fn lemma_quote_safe_append(a: Seq<char>, b: Seq<char>)
    requires
        quote_safe(a),
        quote_safe(b),
    ensures
        quote_safe(a + b),
    decreases a.len(),
{
    if a.len() == 0 {
        assert(a + b =~= b);
    } else if a[0] == '\\' {
        lemma_quote_safe_append(a.skip(2), b);
        assert((a + b).skip(2) =~= a.skip(2) + b);
    } else {
        lemma_quote_safe_append(a.skip(1), b);
        assert((a + b).skip(1) =~= a.skip(1) + b);
    }
}

proof fn lemma_byte_escape_quote_safe(b: u8)
    ensures
        quote_safe(byte_escape(b)),
{
    let t = byte_escape(b);
    let e = Seq::<char>::empty();
    assert(quote_safe(e));
    if b == 0x09 || b == 0x0d || b == 0x0a || b == 0x27 || b == 0x22 || b == 0x5c {
        assert(t.skip(2) =~= e);
    } else if 0x20 <= b <= 0x7e {
        assert(t.skip(1) =~= e);
        assert(t[0] == b as char);
        assert((b as char) != '\\' && (b as char) != '"');
    } else {
        let hi = digit_char((b / 16) as nat);
        let lo = digit_char((b % 16) as nat);
        assert(hi != '\\' && hi != '"');
        assert(lo != '\\' && lo != '"');
        assert(seq![lo].skip(1) =~= e);
        assert(quote_safe(seq![lo]));
        assert(seq![hi, lo].skip(1) =~= seq![lo]);
        assert(quote_safe(seq![hi, lo]));
        assert(t.skip(2) =~= seq![hi, lo]);
    }
}

/// Escaped bytes never end a bytes literal early: every double quote byte,
/// like every backslash, is written behind a backslash, and no escape
/// leaves a double quote of its own, so the quote after the escaped bytes
/// is the first one that closes the literal.
pub proof fn lemma_bytes_escaped_quote_safe(s: Seq<u8>)
    ensures
        quote_safe(bytes_escaped(s)),
    decreases s.len(),
{
    if s.len() > 0 {
        lemma_bytes_escaped_quote_safe(s.drop_last());
        lemma_byte_escape_quote_safe(s.last());
        lemma_quote_safe_append(bytes_escaped(s.drop_last()), byte_escape(s.last()));
    }
}

proof fn lemma_json_escape_char_quote_safe(c: char)
    ensures
        quote_safe(json_escape_char(c)),
{
    let t = json_escape_char(c);
    let e = Seq::<char>::empty();
    assert(quote_safe(e));
    if c == '"' || c == '\\' || c == '\x08' || c == '\t' || c == '\n' || c == '\x0c' || c == '\r' {
        assert(t.skip(2) =~= e);
    } else if (c as u32) < 0x20 {
        let hi = digit_char((c as u32 / 16) as nat);
        let lo = digit_char((c as u32 % 16) as nat);
        assert(hi != '\\' && hi != '"');
        assert(lo != '\\' && lo != '"');
        assert(seq![lo].skip(1) =~= e);
        assert(quote_safe(seq![lo]));
        assert(seq![hi, lo].skip(1) =~= seq![lo]);
        assert(quote_safe(seq![hi, lo]));
        assert(seq!['0', hi, lo].skip(1) =~= seq![hi, lo]);
        assert(quote_safe(seq!['0', hi, lo]));
        assert(seq!['0', '0', hi, lo].skip(1) =~= seq!['0', hi, lo]);
        assert(quote_safe(seq!['0', '0', hi, lo]));
        assert(t.skip(2) =~= seq!['0', '0', hi, lo]);
    } else {
        assert(t.skip(1) =~= e);
    }
}

/// Escaped text never ends a string early: every double quote, like every
/// backslash, is written behind a backslash, so the quote after the escaped
/// text is the first one that closes the string.
pub proof fn lemma_json_escaped_quote_safe(s: Seq<char>)
    ensures
        quote_safe(json_escaped(s)),
    decreases s.len(),
{
    if s.len() > 0 {
        lemma_json_escaped_quote_safe(s.drop_last());
        lemma_json_escape_char_quote_safe(s.last());
        lemma_quote_safe_append(json_escaped(s.drop_last()), json_escape_char(s.last()));
    }
}

/// A quoted Duper string: `"` + the JSON escape of the text + `"`.
pub open spec fn string_text(s: Seq<char>) -> Seq<char> {
    seq!['"'] + json_escaped(s) + seq!['"']
}

/// A quoted Duper bytes value: `b"` + the escaped bytes + `"`.
pub open spec fn bytes_text(b: Seq<u8>) -> Seq<char> {
    seq!['b', '"'] + bytes_escaped(b) + seq!['"']
}

/// A character allowed in a bare object key.
pub open spec fn is_plain_key_char(c: char) -> bool {
    ('0' <= c <= '9') || ('a' <= c <= 'z') || ('A' <= c <= 'Z') || c == '_'
}

/// An object key as written: bare when every character is an ASCII letter,
/// digit or `_`, quoted otherwise.
pub open spec fn key_text(k: Seq<char>) -> Seq<char> {
    if forall|i: int| 0 <= i < k.len() ==> #[trigger] is_plain_key_char(k[i]) {
        k
    } else {
        string_text(k)
    }
}

/// A decimal integer as `i64`'s `Display` writes it.
pub open spec fn decimal_text(n: int) -> Seq<char> {
    if n < 0 {
        seq!['-'] + radix_digits((-n) as nat, 10)
    } else {
        radix_digits(n as nat, 10)
    }
}

/// An integer as written for the given type: hexadecimal, octal and binary
/// integers write the two's-complement bits after `0x`, `0o` or `0b`; every
/// other integer is decimal.
pub open spec fn integer_text(n: i64, typ: Option<DuperTypes>) -> Seq<char> {
    match typ {
        Some(DuperTypes::HexInteger) => seq!['0', 'x'] + radix_digits((n as u64) as nat, 16),
        Some(DuperTypes::OctInteger) => seq!['0', 'o'] + radix_digits((n as u64) as nat, 8),
        Some(DuperTypes::BinInteger) => seq!['0', 'b'] + radix_digits((n as u64) as nat, 2),
        _ => decimal_text(n as int),
    }
}

/// `true` or `false`.
pub open spec fn boolean_text(b: bool) -> Seq<char> {
    if b {
        seq!['t', 'r', 'u', 'e']
    } else {
        seq!['f', 'a', 'l', 's', 'e']
    }
}

fn plain_key_char(c: char) -> (r: bool)
    ensures
        r == is_plain_key_char(c),
{
    ('0' <= c && c <= '9') || ('a' <= c && c <= 'z') || ('A' <= c && c <= 'Z') || c == '_'
}

/// Writes an object key: bare if it only holds ASCII letters, digits and
/// `_`, quoted otherwise.
pub fn format_key(key: &str) -> (s: String)
    ensures
        s@ == key_text(key@),
{
    let cs = chars_of(key);
    let mut i: usize = 0;
    while i < cs.len()
        invariant
            cs@ == key@,
            i <= cs.len(),
            forall|j: int| 0 <= j < i ==> #[trigger] is_plain_key_char(key@[j]),
        decreases cs.len() - i,
    {
        if !plain_key_char(cs[i]) {
            proof {
                assert(!is_plain_key_char(key@[i as int]));
            }
            return format_string(key);
        }
        i += 1;
    }
    key.to_owned()
}

/// Writes a quoted, JSON-escaped string.
pub fn format_string(string: &str) -> (s: String)
    ensures
        s@ == string_text(string@),
{
    let mut s = String::new();
    push_char(&mut s, '"');
    let escaped = escape_json(string);
    push_str(&mut s, escaped.as_str());
    push_char(&mut s, '"');
    s
}

fn push_escaped_byte(out: &mut String, b: u8)
    ensures
        final(out)@ == old(out)@ + byte_escape(b),
{
    if b == 0x09 {
        push_char(out, '\\');
        push_char(out, 't');
    } else if b == 0x0d {
        push_char(out, '\\');
        push_char(out, 'r');
    } else if b == 0x0a {
        push_char(out, '\\');
        push_char(out, 'n');
    } else if b == 0x27 {
        push_char(out, '\\');
        push_char(out, '\'');
    } else if b == 0x22 {
        push_char(out, '\\');
        push_char(out, '"');
    } else if b == 0x5c {
        push_char(out, '\\');
        push_char(out, '\\');
    } else if 0x20 <= b && b <= 0x7e {
        push_char(out, b as char);
    } else {
        push_char(out, '\\');
        push_char(out, 'x');
        push_char(out, crate::text::digit_to_char((b / 16) as u64));
        push_char(out, crate::text::digit_to_char((b % 16) as u64));
    }
}

/// Writes bytes as `b"..."`, escaping each byte as std's
/// `ascii::escape_default` does.
pub fn format_bytes(bytes: &[u8]) -> (s: String)
    ensures
        s@ == bytes_text(bytes@),
{
    let mut s = String::new();
    push_char(&mut s, 'b');
    push_char(&mut s, '"');
    let ghost start = s@;
    let mut i: usize = 0;
    while i < bytes.len()
        invariant
            i <= bytes.len(),
            start == seq!['b', '"'],
            s@ == start + bytes_escaped(bytes@.take(i as int)),
        decreases bytes.len() - i,
    {
        assert(bytes@.take(i as int + 1).drop_last() == bytes@.take(i as int));
        push_escaped_byte(&mut s, bytes[i]);
        i += 1;
    }
    assert(bytes@.take(bytes.len() as int) == bytes@);
    push_char(&mut s, '"');
    s
}

/// Appends the decimal digits of `n`, with a leading `-` when negative.
fn push_decimal(out: &mut String, n: i64)
    ensures
        final(out)@ == old(out)@ + decimal_text(n as int),
{
    if n < 0 {
        push_char(out, '-');
        let magnitude: u64 = ((-(n + 1)) as u64) + 1;
        push_radix(out, magnitude, 10);
    } else {
        push_radix(out, n as u64, 10);
    }
}

/// Writes an integer: in hexadecimal, octal or binary (of its
/// two's-complement bits) for those types, in decimal otherwise.
pub fn format_integer(integer: i64, typ: Option<DuperTypes>) -> (s: String)
    ensures
        s@ == integer_text(integer, typ),
{
    let mut s = String::new();
    match typ {
        Some(DuperTypes::HexInteger) => {
            push_char(&mut s, '0');
            push_char(&mut s, 'x');
            push_radix(&mut s, integer as u64, 16);
        },
        Some(DuperTypes::OctInteger) => {
            push_char(&mut s, '0');
            push_char(&mut s, 'o');
            push_radix(&mut s, integer as u64, 8);
        },
        Some(DuperTypes::BinInteger) => {
            push_char(&mut s, '0');
            push_char(&mut s, 'b');
            push_radix(&mut s, integer as u64, 2);
        },
        _ => {
            push_decimal(&mut s, integer);
        },
    }
    s
}

/// Writes a float as its decimal rendering.
pub fn format_float(float: &DuperFloat) -> (s: String)
    ensures
        s@ == float.spec_text(),
{
    float.as_str().to_owned()
}

/// Writes `true` or `false`.
pub fn format_boolean(boolean: bool) -> (s: String)
    ensures
        s@ == boolean_text(boolean),
{
    let mut s = String::new();
    if boolean {
        push_char(&mut s, 't');
        push_char(&mut s, 'r');
        push_char(&mut s, 'u');
        push_char(&mut s, 'e');
    } else {
        push_char(&mut s, 'f');
        push_char(&mut s, 'a');
        push_char(&mut s, 'l');
        push_char(&mut s, 's');
        push_char(&mut s, 'e');
    }
    s
}

} // verus!
