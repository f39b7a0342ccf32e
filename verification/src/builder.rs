//! Building Duper values out of the parse tree of Duper text.
//!
//! The parser matches the text against the Duper grammar and hands over a
//! tree of nodes, each with the grammar rule it matched, the text it spans
//! and its children. Building walks that tree: it reads identifiers, keys,
//! escaped and raw strings and bytes, integers in four bases, booleans and
//! null, refuses objects with repeated keys, and reports a rule that cannot
//! stand where it was found.
use vstd::prelude::*;
use crate::ast::{
    opt_view, DuperArray, DuperBytes, DuperFloat, DuperIdentifier, DuperInner, DuperKey,
    DuperObject, DuperString, DuperTuple, DuperValue,
};
use vstd::string::StrSliceExecFns;
use vstd::utf8::encode_utf8;
use crate::text::{chars_of, str_eq, string_of};

verus! {

/// The value of a digit character in bases up to 36: `0`–`9`, then `a`–`z`
/// or `A`–`Z` for 10 to 35; 36 for any other character.
pub open spec fn digit_value(c: char) -> int {
    let n = c as int;
    if 48 <= n <= 57 {
        n - 48
    } else if 97 <= n <= 122 {
        n - 87
    } else if 65 <= n <= 90 {
        n - 55
    } else {
        36
    }
}

/// The number that a sequence of digits of the radix stands for, if every
/// character is such a digit.
pub open spec fn digits_value(s: Seq<char>, radix: int) -> Option<int>
    decreases s.len(),
{
    if s.len() == 0 {
        Some(0)
    } else {
        match digits_value(s.drop_last(), radix) {
            None => None,
            Some(v) => if digit_value(s.last()) < radix {
                Some(v * radix + digit_value(s.last()))
            } else {
                None
            },
        }
    }
}

/// What `i64::from_str_radix` reads before the range check: an optional `+`
/// or `-` followed by at least one digit of the radix.
pub open spec fn signed_value(s: Seq<char>, radix: int) -> Option<int> {
    if s.len() == 0 {
        None
    } else if s[0] == '+' || s[0] == '-' {
        if s.len() == 1 {
            None
        } else {
            match digits_value(s.drop_first(), radix) {
                Some(v) => Some(
                    if s[0] == '-' {
                        -v
                    } else {
                        v
                    },
                ),
                None => None,
            }
        }
    } else {
        digits_value(s, radix)
    }
}

/// Whether a number fits in an `i64`.
pub open spec fn fits_i64(v: int) -> bool {
    i64::MIN <= v <= i64::MAX
}

/// What `i64::from_str_radix` gives: the number when it is read and fits.
pub open spec fn radix_integer(s: Seq<char>, radix: int) -> Option<i64> {
    match signed_value(s, radix) {
        Some(v) => if fits_i64(v) {
            Some(v as i64)
        } else {
            None
        },
        None => None,
    }
}

proof fn lemma_digits_prefix(s: Seq<char>, radix: int, k: int)
    requires
        2 <= radix,
        0 <= k <= s.len(),
    ensures
        digits_value(s.take(k), radix) is None ==> digits_value(s, radix) is None,
        digits_value(s.take(k), radix) matches Some(a) ==> (a >= 0 && (digits_value(s, radix) matches Some(
            w,
        ) ==> w >= a)),
    decreases s.len(),
{
    if k == s.len() {
        assert(s.take(k) == s);
        lemma_digits_nonneg(s, radix);
    } else {
        assert(s.drop_last().take(k) == s.take(k));
        lemma_digits_prefix(s.drop_last(), radix, k);
        lemma_digits_nonneg(s.drop_last(), radix);
        match digits_value(s.drop_last(), radix) {
            Some(v) => {
                assert(v * radix >= v) by (nonlinear_arith)
                    requires
                        v >= 0,
                        radix >= 2,
                ;
            },
            None => {},
        }
    }
}

proof fn lemma_digits_nonneg(s: Seq<char>, radix: int)
    requires
        2 <= radix,
    ensures
        digits_value(s, radix) matches Some(v) ==> v >= 0,
    decreases s.len(),
{
    if s.len() > 0 {
        lemma_digits_nonneg(s.drop_last(), radix);
        match digits_value(s.drop_last(), radix) {
            Some(v) => {
                assert(v * radix >= 0) by (nonlinear_arith)
                    requires
                        v >= 0,
                        radix >= 2,
                ;
            },
            None => {},
        }
    }
}

fn digit_of(c: char) -> (d: u32)
    ensures
        d == digit_value(c),
{
    let n = c as u32;
    if 48 <= n && n <= 57 {
        n - 48
    } else if 97 <= n && n <= 122 {
        n - 87
    } else if 65 <= n && n <= 90 {
        n - 55
    } else {
        36
    }
}

/// Reads an integer in the given radix as `i64::from_str_radix` does: an
/// optional sign, at least one digit, and a value that fits in an `i64`.
pub fn parse_integer(text: &str, radix: u32) -> (r: Option<i64>)
    requires
        2 <= radix <= 36,
    ensures
        r == radix_integer(text@, radix as int),
{
    let cs = chars_of(text);
    if cs.len() == 0 {
        return None;
    }
    let neg = cs[0] == '-';
    let start: usize = if cs[0] == '+' || cs[0] == '-' {
        1
    } else {
        0
    };
    if start == 1 && cs.len() == 1 {
        return None;
    }
    let ghost digits = cs@.skip(start as int);
    proof {
        if start == 0 {
            assert(digits == cs@);
        } else {
            assert(digits == cs@.drop_first());
        }
    }
    let limit: i128 = 0x8000_0000_0000_0000;
    let mut acc: i128 = 0;
    let mut i: usize = start;
    assert(digits.take(0) == Seq::<char>::empty());
    while i < cs.len()
        invariant
            cs@ == text@,
            start <= i <= cs.len(),
            start <= 1,
            digits == cs@.skip(start as int),
            2 <= radix <= 36,
            0 <= acc <= limit,
            limit == 0x8000_0000_0000_0000,
            digits_value(digits.take(i - start), radix as int) == Some(acc as int),
            cs@.len() > start,
            (start == 1) == (cs@[0] == '+' || cs@[0] == '-'),
            neg == (cs@[0] == '-'),
            start == 1 ==> digits == cs@.drop_first(),
            start == 0 ==> digits == cs@,
        decreases cs.len() - i,
    {
        let d = digit_of(cs[i]);
        let ghost pre = digits.take(i - start);
        let ghost next = digits.take(i - start + 1);
        assert(next.drop_last() == pre);
        assert(next.last() == cs@[i as int]);
        if d >= radix {
            proof {
                assert(digits_value(next, radix as int) is None);
                lemma_digits_prefix(digits, radix as int, i - start + 1);
            }
            return None;
        }
        assert(acc * (radix as i128) <= limit * 36) by (nonlinear_arith)
            requires
                0 <= acc <= limit,
                radix <= 36,
        ;
        assert(acc * (radix as i128) >= 0) by (nonlinear_arith)
            requires
                0 <= acc,
                radix >= 0,
        ;
        let next_acc = acc * (radix as i128) + (d as i128);
        if next_acc > limit {
            proof {
                assert(digits_value(next, radix as int) == Some(next_acc as int));
                lemma_digits_prefix(digits, radix as int, i - start + 1);
            }
            return None;
        }
        acc = next_acc;
        i += 1;
    }
    proof {
        assert(digits.take(cs.len() - start) == digits);
    }
    if neg {
        Some((0 - acc) as i64)
    } else if acc < limit {
        Some(acc as i64)
    } else {
        None
    }
}

} // verus!

verus! {

/// The grammar rules that building tells apart; any other rule is `Other`,
/// with its name.
#[derive(Debug)]
pub enum Rule {
    Identifier,
    Object,
    Array,
    Tuple,
    String,
    RawString,
    Bytes,
    RawBytes,
    Integer,
    DecimalInteger,
    HexInteger,
    OctalInteger,
    BinaryInteger,
    Float,
    Boolean,
    Null,
    PlainKey,
    Other(String),
}

/// A node of a parse tree: the rule it matched, the text it spans and where
/// (byte offsets), its children in order, and, for a float, the number that
/// its text stands for.
#[derive(Debug)]
pub struct ParseNode {
    pub rule: Rule,
    pub text: String,
    pub start: usize,
    pub end: usize,
    pub children: Vec<ParseNode>,
    pub float: Option<DuperFloat>,
}

/// Why building failed: a message about the span where it failed.
#[derive(Debug)]
pub struct BuildError {
    pub message: String,
    pub start: usize,
    pub end: usize,
}

/// The grammar's name of a rule.
pub open spec fn rule_name(r: Rule) -> Seq<char> {
    match r {
        Rule::Identifier => "identifier"@,
        Rule::Object => "object"@,
        Rule::Array => "array"@,
        Rule::Tuple => "tuple"@,
        Rule::String => "string"@,
        Rule::RawString => "raw_string"@,
        Rule::Bytes => "bytes"@,
        Rule::RawBytes => "raw_bytes"@,
        Rule::Integer => "integer"@,
        Rule::DecimalInteger => "decimal_integer"@,
        Rule::HexInteger => "hex_integer"@,
        Rule::OctalInteger => "octal_integer"@,
        Rule::BinaryInteger => "binary_integer"@,
        Rule::Float => "float"@,
        Rule::Boolean => "boolean"@,
        Rule::Null => "null"@,
        Rule::PlainKey => "plain_key"@,
        Rule::Other(n) => n@,
    }
}

/// A build error as plain values: message, start and end.
pub open spec fn error_view(e: BuildError) -> (Seq<char>, usize, usize) {
    (e.message@, e.start, e.end)
}

/// The children of a node decrease from it.
pub proof fn lemma_node_children_decrease(n: ParseNode)
    ensures
        decreases_to!(n => n.children@),
        forall|i: int| 0 <= i < n.children@.len() ==> decreases_to!(n => #[trigger] n.children@[i]),
{
    assert(decreases_to!(n => n.children));
    assert(decreases_to!(n.children => n.children@));
    assert forall|i: int| 0 <= i < n.children@.len() implies decreases_to!(
        n => #[trigger] n.children@[i]
    ) by {
        assert(decreases_to!(n.children@ => n.children@[i]));
    }
}

/// What json-escape's `explicit::unescape` followed by `decode_utf8` makes of
/// a text: the unescaped text, or `None` when an escape is malformed or the
/// bytes are not UTF-8.
pub uninterp spec fn json_unescaped(text: Seq<char>) -> Option<Seq<char>>;

/// Calls json-escape's `explicit::unescape` and `decode_utf8` on a text; the
/// result is the named unescaping.
#[verifier::external_body]
fn unescape_json(text: &str) -> (r: Option<String>)
    ensures
        opt_view(r) == json_unescaped(text@),
{
    match json_escape::explicit::unescape(text).decode_utf8() {
        Ok(s) => Some(s.into_owned()),
        Err(_) => None,
    }
}

/// Where the value proper sits among a value node's children: after the
/// identifier, if there is one.
pub open spec fn inner_index(n: ParseNode) -> int {
    if n.children@.len() > 0 && n.children@[0].rule is Identifier {
        1
    } else {
        0
    }
}

/// Whether the digits of an integer node can be read: a decimal integer as
/// a whole, the others after their two-character ASCII prefix (`0x`, `0o`,
/// `0b`), each in its base and within `i64`.
pub open spec fn integer_ok(d: ParseNode) -> bool {
    let t = d.text@;
    match d.rule {
        Rule::DecimalInteger => radix_integer(t, 10) is Some,
        Rule::HexInteger => t.len() >= 2 && (t[0] as int) < 128 && (t[1] as int) < 128
            && radix_integer(t.skip(2), 16) is Some,
        Rule::OctalInteger => t.len() >= 2 && (t[0] as int) < 128 && (t[1] as int) < 128
            && radix_integer(t.skip(2), 8) is Some,
        Rule::BinaryInteger => t.len() >= 2 && (t[0] as int) < 128 && (t[1] as int) < 128
            && radix_integer(t.skip(2), 2) is Some,
        _ => true,
    }
}

/// The number an integer node stands for.
pub open spec fn integer_of(d: ParseNode) -> i64 {
    let t = d.text@;
    match d.rule {
        Rule::DecimalInteger => radix_integer(t, 10)->0,
        Rule::HexInteger => radix_integer(t.skip(2), 16)->0,
        Rule::OctalInteger => radix_integer(t.skip(2), 8)->0,
        Rule::BinaryInteger => radix_integer(t.skip(2), 2)->0,
        _ => 0,
    }
}

/// Whether a key node can be read: a quoted key holds valid escapes.
pub open spec fn key_ok(k: ParseNode) -> bool {
    match k.rule {
        Rule::String => k.children@.len() >= 1 && json_unescaped(k.children@[0].text@) is Some,
        Rule::RawString => k.children@.len() >= 1,
        _ => true,
    }
}

/// The text of a key node.
pub open spec fn key_of(k: ParseNode) -> Seq<char> {
    match k.rule {
        Rule::String => json_unescaped(k.children@[0].text@)->0,
        Rule::RawString => k.children@[0].text@,
        _ => k.text@,
    }
}

/// Whether a value node has the shape the grammar gives it, so that
/// building never has to give up on it: an optional identifier followed by
/// the value proper, whose parts are there and can be read.
pub open spec fn value_ok(n: ParseNode) -> bool
    decreases n,
{
    proof {
        lemma_node_children_decrease(n);
    }
    n.children@.len() > inner_index(n) && inner_ok(n.children@[inner_index(n)])
}

/// Whether the value proper of a value node can be built.
pub open spec fn inner_ok(i: ParseNode) -> bool
    decreases i,
{
    proof {
        lemma_node_children_decrease(i);
    }
    match i.rule {
        Rule::Object => forall|j: int| 0 <= j < i.children@.len() ==> entry_ok(#[trigger] i.children@[j]),
        Rule::Array => forall|j: int| 0 <= j < i.children@.len() ==> value_ok(#[trigger] i.children@[j]),
        Rule::Tuple => forall|j: int| 0 <= j < i.children@.len() ==> value_ok(#[trigger] i.children@[j]),
        Rule::String => i.children@.len() >= 1 && json_unescaped(i.children@[0].text@) is Some,
        Rule::Bytes => i.children@.len() >= 1 && json_unescaped(i.children@[0].text@) is Some,
        Rule::RawString => i.children@.len() >= 1,
        Rule::RawBytes => i.children@.len() >= 1,
        Rule::Integer => i.children@.len() >= 1 && integer_ok(i.children@[0]),
        Rule::Float => i.float is Some,
        Rule::Boolean => i.text@ == "true"@ || i.text@ == "false"@,
        _ => true,
    }
}

/// Whether an object entry node holds a readable key and a value.
pub open spec fn entry_ok(e: ParseNode) -> bool
    decreases e,
{
    proof {
        lemma_node_children_decrease(e);
    }
    e.children@.len() >= 2 && key_ok(e.children@[0]) && value_ok(e.children@[1])
}

/// The first failure in building a value node, as message and span.
pub open spec fn value_error(n: ParseNode) -> Option<(Seq<char>, usize, usize)>
    decreases n,
{
    proof {
        lemma_node_children_decrease(n);
    }
    if n.children@.len() <= inner_index(n) {
        None
    } else {
        let i = n.children@[inner_index(n)];
        proof {
            lemma_node_children_decrease(i);
        }
        match i.rule {
            Rule::Object => object_error(i),
            Rule::Array => items_error(i.children@),
            Rule::Tuple => items_error(i.children@),
            Rule::String => None,
            Rule::RawString => None,
            Rule::Bytes => None,
            Rule::RawBytes => None,
            Rule::Float => None,
            Rule::Boolean => None,
            Rule::Null => None,
            Rule::Integer => if i.children@.len() == 0 {
                None
            } else {
                match i.children@[0].rule {
                    Rule::DecimalInteger => None,
                    Rule::HexInteger => None,
                    Rule::OctalInteger => None,
                    Rule::BinaryInteger => None,
                    r => Some(("unexpected rule in integer value "@ + rule_name(r), n.start, n.end)),
                }
            },
            r => Some(("unexpected rule in value "@ + rule_name(r), n.start, n.end)),
        }
    }
}

/// The first failure among value nodes, in order.
pub open spec fn items_error(s: Seq<ParseNode>) -> Option<(Seq<char>, usize, usize)>
    decreases s,
{
    if s.len() == 0 {
        None
    } else {
        match items_error(s.drop_last()) {
            Some(e) => Some(e),
            None => value_error(s.last()),
        }
    }
}

/// The failure in building an entry node: a key of a rule that cannot be a
/// key, or a failure of its value.
pub open spec fn entry_error(e: ParseNode) -> Option<(Seq<char>, usize, usize)>
    decreases e,
{
    proof {
        lemma_node_children_decrease(e);
    }
    if e.children@.len() < 2 {
        None
    } else {
        match e.children@[0].rule {
            Rule::String => value_error(e.children@[1]),
            Rule::RawString => value_error(e.children@[1]),
            Rule::PlainKey => value_error(e.children@[1]),
            r => Some(("unexpected rule in object key "@ + rule_name(r), e.start, e.end)),
        }
    }
}

/// The first failure among entry nodes, in order.
pub open spec fn entries_error(s: Seq<ParseNode>) -> Option<(Seq<char>, usize, usize)>
    decreases s,
{
    if s.len() == 0 {
        None
    } else {
        match entries_error(s.drop_last()) {
            Some(e) => Some(e),
            None => entry_error(s.last()),
        }
    }
}

/// Whether the keys of entry nodes are all different.
pub open spec fn keys_unique(s: Seq<ParseNode>) -> bool {
    forall|a: int, b: int|
        #![trigger s[a], s[b]]
        0 <= a < b < s.len() ==> key_of(s[a].children@[0]) != key_of(s[b].children@[0])
}

/// The failure in building an object node: the first failure of an entry,
/// else a repeated key.
pub open spec fn object_error(o: ParseNode) -> Option<(Seq<char>, usize, usize)>
    decreases o,
{
    proof {
        lemma_node_children_decrease(o);
    }
    match entries_error(o.children@) {
        Some(e) => Some(e),
        None => if keys_unique(o.children@) {
            None
        } else {
            Some(("duplicate keys in object"@, o.start, o.end))
        },
    }
}

} // verus!

verus! {

/// Whether `out` is the identifier of a value node: its first child's text
/// when that child is an identifier, none otherwise.
pub open spec fn built_identifier(out: Option<DuperIdentifier>, n: ParseNode) -> bool {
    if inner_index(n) == 1 {
        out matches Some(id) && id@ == n.children@[0].text@
    } else {
        out is None
    }
}

/// Whether `out` is what a value node builds into.
pub open spec fn built_value(out: DuperValue, n: ParseNode) -> bool
    decreases n,
{
    proof {
        lemma_node_children_decrease(n);
    }
    &&& n.children@.len() > inner_index(n)
    &&& built_identifier(out.identifier, n)
    &&& built_inner(out.inner, n.children@[inner_index(n)])
}

/// Whether `out` is what the value proper of a value node builds into.
pub open spec fn built_inner(out: DuperInner, i: ParseNode) -> bool
    decreases i,
{
    proof {
        lemma_node_children_decrease(i);
    }
    match i.rule {
        Rule::Object => {
            &&& out is Object
            &&& out->Object_0@.len() == i.children@.len()
            &&& forall|j: int|
                0 <= j < i.children@.len() ==> built_entry(#[trigger] out->Object_0@[j], i.children@[j])
        },
        Rule::Array => {
            &&& out is Array
            &&& out->Array_0@.len() == i.children@.len()
            &&& forall|j: int|
                0 <= j < i.children@.len() ==> built_value(#[trigger] out->Array_0@[j], i.children@[j])
        },
        Rule::Tuple => {
            &&& out is Tuple
            &&& out->Tuple_0@.len() == i.children@.len()
            &&& forall|j: int|
                0 <= j < i.children@.len() ==> built_value(#[trigger] out->Tuple_0@[j], i.children@[j])
        },
        Rule::String => out is String && out->String_0@ == json_unescaped(i.children@[0].text@)->0,
        Rule::RawString => out is String && out->String_0@ == i.children@[0].text@,
        Rule::Bytes => out is Bytes && out->Bytes_0@ == encode_utf8(
            json_unescaped(i.children@[0].text@)->0,
        ),
        Rule::RawBytes => out is Bytes && out->Bytes_0@ == encode_utf8(i.children@[0].text@),
        Rule::Integer => out == DuperInner::Integer(integer_of(i.children@[0])),
        Rule::Float => out == DuperInner::Float(i.float->0),
        Rule::Boolean => out == DuperInner::Boolean(i.text@ == "true"@),
        Rule::Null => out is Null,
        _ => false,
    }
}

/// Whether `out` is what an entry node builds into: its key's text and its
/// value.
pub open spec fn built_entry(out: (DuperKey, DuperValue), e: ParseNode) -> bool
    decreases e,
{
    proof {
        lemma_node_children_decrease(e);
    }
    &&& e.children@.len() >= 2
    &&& out.0@ == key_of(e.children@[0])
    &&& built_value(out.1, e.children@[1])
}

/// Whether `r` is the outcome of building a value node: the first failure,
/// or the value it builds into.
pub open spec fn value_outcome(r: Result<DuperValue, BuildError>, n: ParseNode) -> bool {
    match value_error(n) {
        Some(e) => r matches Err(x) && error_view(x) == e,
        None => r matches Ok(v) && built_value(v, n),
    }
}

fn rule_text(r: &Rule) -> (s: String)
    ensures
        s@ == rule_name(*r),
{
    match r {
        Rule::Identifier => "identifier".to_owned(),
        Rule::Object => "object".to_owned(),
        Rule::Array => "array".to_owned(),
        Rule::Tuple => "tuple".to_owned(),
        Rule::String => "string".to_owned(),
        Rule::RawString => "raw_string".to_owned(),
        Rule::Bytes => "bytes".to_owned(),
        Rule::RawBytes => "raw_bytes".to_owned(),
        Rule::Integer => "integer".to_owned(),
        Rule::DecimalInteger => "decimal_integer".to_owned(),
        Rule::HexInteger => "hex_integer".to_owned(),
        Rule::OctalInteger => "octal_integer".to_owned(),
        Rule::BinaryInteger => "binary_integer".to_owned(),
        Rule::Float => "float".to_owned(),
        Rule::Boolean => "boolean".to_owned(),
        Rule::Null => "null".to_owned(),
        Rule::PlainKey => "plain_key".to_owned(),
        Rule::Other(n) => n.clone(),
    }
}

fn unexpected(context: &str, r: &Rule, start: usize, end: usize) -> (e: BuildError)
    ensures
        error_view(e) == (context@ + rule_name(*r), start, end),
{
    let mut message = context.to_owned();
    let name = rule_text(r);
    message.append(name.as_str());
    BuildError { message, start, end }
}

fn is_identifier(r: &Rule) -> (b: bool)
    ensures
        b == (*r is Identifier),
{
    match r {
        Rule::Identifier => true,
        _ => false,
    }
}

/// The text of the first child of a node.
fn first_child_text(children: Vec<ParseNode>) -> (t: String)
    requires
        children@.len() >= 1,
    ensures
        t@ == children@[0].text@,
{
    let mut children = children;
    children.remove(0).text
}

fn unescaped(text: &str) -> (s: String)
    requires
        json_unescaped(text@) is Some,
    ensures
        s@ == json_unescaped(text@)->0,
{
    match unescape_json(text) {
        Some(s) => s,
        None => {
            proof {
                assert(false);
            }
            String::new()
        },
    }
}

fn read_integer(d: ParseNode) -> (n: i64)
    requires
        integer_ok(d),
        d.rule is DecimalInteger || d.rule is HexInteger || d.rule is OctalInteger || d.rule is BinaryInteger,
    ensures
        n == integer_of(d),
{
    let radix: u32 = match d.rule {
        Rule::HexInteger => 16,
        Rule::OctalInteger => 8,
        Rule::BinaryInteger => 2,
        _ => 10,
    };
    let digits = if radix == 10 {
        d.text
    } else {
        after_prefix(d.text.as_str())
    };
    match parse_integer(digits.as_str(), radix) {
        Some(n) => n,
        None => {
            proof {
                assert(false);
            }
            0
        },
    }
}

/// The characters of a text after its first two.
fn after_prefix(text: &str) -> (rest: String)
    requires
        text@.len() >= 2,
    ensures
        rest@ == text@.skip(2),
{
    let cs = chars_of(text);
    let mut rest = String::new();
    let mut i: usize = 2;
    while i < cs.len()
        invariant
            cs@ == text@,
            2 <= i <= cs.len(),
            rest@ == cs@.subrange(2, i as int),
        decreases cs.len() - i,
    {
        rest.append(char_text(cs[i]).as_str());
        i += 1;
        assert(cs@.subrange(2, i as int) == cs@.subrange(2, i - 1).push(cs@[i - 1]));
    }
    assert(cs@.subrange(2, cs@.len() as int) == cs@.skip(2));
    rest
}

fn char_text(c: char) -> (s: String)
    ensures
        s@ == seq![c],
{
    let mut v: Vec<char> = Vec::new();
    v.push(c);
    string_of(&v)
}

fn read_scalar(i: ParseNode) -> (r: Result<DuperInner, BuildError>)
    requires
        inner_ok(i),
        !(i.rule is Object || i.rule is Array || i.rule is Tuple),
    ensures
        match i.rule {
            Rule::String | Rule::RawString | Rule::Bytes | Rule::RawBytes | Rule::Float | Rule::Boolean | Rule::Null => r matches Ok(
                out,
            ) && built_inner(out, i),
            _ => r is Err,
        },
{
    let ParseNode { rule, text, start, end, children, float } = i;
    match rule {
        Rule::String => {
            let t = first_child_text(children);
            Ok(DuperInner::String(DuperString::from(unescaped(t.as_str()))))
        },
        Rule::RawString => {
            let t = first_child_text(children);
            Ok(DuperInner::String(DuperString::from(t)))
        },
        Rule::Bytes => {
            let t = first_child_text(children);
            let s = unescaped(t.as_str());
            Ok(DuperInner::Bytes(DuperBytes::from(s.as_str().as_bytes_vec())))
        },
        Rule::RawBytes => {
            let t = first_child_text(children);
            Ok(DuperInner::Bytes(DuperBytes::from(t.as_str().as_bytes_vec())))
        },
        Rule::Float => match float {
            Some(f) => Ok(DuperInner::Float(f)),
            None => {
                proof {
                    assert(false);
                }
                Err(BuildError { message: String::new(), start, end })
            },
        },
        Rule::Boolean => {
            proof {
                reveal_strlit("true");
            }
            Ok(DuperInner::Boolean(str_eq(text.as_str(), "true")))
        },
        Rule::Null => Ok(DuperInner::Null),
        other => Err(BuildError { message: rule_text(&other), start, end }),
    }
}

} // verus!

verus! {

/// Whether a trunk node (a whole document's value) has the shape the
/// grammar gives it: an optional identifier and a value proper, which, when
/// it is an object or an array, can be built.
pub open spec fn trunk_ok(t: ParseNode) -> bool {
    &&& t.children@.len() > inner_index(t)
    &&& (t.children@[inner_index(t)].rule is Object || t.children@[inner_index(t)].rule is Array)
        ==> inner_ok(t.children@[inner_index(t)])
}

/// The first failure in building a trunk node: only an object or an array
/// can stand at the top of a document.
pub open spec fn trunk_error(t: ParseNode) -> Option<(Seq<char>, usize, usize)> {
    let i = t.children@[inner_index(t)];
    match i.rule {
        Rule::Object => object_error(i),
        Rule::Array => items_error(i.children@),
        r => Some(("unexpected rule in trunk "@ + rule_name(r), t.start, t.end)),
    }
}

/// The first failure among trunk nodes, in order.
pub open spec fn trunks_error(s: Seq<ParseNode>) -> Option<(Seq<char>, usize, usize)>
    decreases s.len(),
{
    if s.len() == 0 {
        None
    } else {
        match trunks_error(s.drop_last()) {
            Some(e) => Some(e),
            None => trunk_error(s.last()),
        }
    }
}

proof fn lemma_items_error_sticks(s: Seq<ParseNode>, k: int)
    requires
        0 <= k <= s.len(),
        items_error(s.take(k)) is Some,
    ensures
        items_error(s) == items_error(s.take(k)),
    decreases s.len() - k,
{
    if k < s.len() {
        assert(s.take(k + 1).drop_last() == s.take(k));
        lemma_items_error_sticks(s, k + 1);
    } else {
        assert(s.take(k) == s);
    }
}

proof fn lemma_entries_error_sticks(s: Seq<ParseNode>, k: int)
    requires
        0 <= k <= s.len(),
        entries_error(s.take(k)) is Some,
    ensures
        entries_error(s) == entries_error(s.take(k)),
    decreases s.len() - k,
{
    if k < s.len() {
        assert(s.take(k + 1).drop_last() == s.take(k));
        lemma_entries_error_sticks(s, k + 1);
    } else {
        assert(s.take(k) == s);
    }
}

proof fn lemma_trunks_error_sticks(s: Seq<ParseNode>, k: int)
    requires
        0 <= k <= s.len(),
        trunks_error(s.take(k)) is Some,
    ensures
        trunks_error(s) == trunks_error(s.take(k)),
    decreases s.len() - k,
{
    if k < s.len() {
        assert(s.take(k + 1).drop_last() == s.take(k));
        lemma_trunks_error_sticks(s, k + 1);
    } else {
        assert(s.take(k) == s);
    }
}

/// Builds Duper values out of parse trees.
pub struct DuperBuilder;

impl DuperBuilder {
    /// Builds the values of a stream of documents, one per trunk node, or
    /// reports the first failure.
    pub fn build_duper_stream(node: ParseNode) -> (r: Result<Vec<DuperValue>, BuildError>)
        requires
            forall|i: int| 0 <= i < node.children@.len() ==> trunk_ok(#[trigger] node.children@[i]),
        ensures
            match trunks_error(node.children@) {
                Some(e) => r matches Err(x) && error_view(x) == e,
                None => r matches Ok(v) && v@.len() == node.children@.len() && forall|i: int|
                    0 <= i < v@.len() ==> built_value(#[trigger] v@[i], node.children@[i]),
            },
    {
        let ghost all = node.children@;
        let mut trunks = node.children;
        let mut out: Vec<DuperValue> = Vec::new();
        let n = trunks.len();
        let mut i: usize = 0;
        while i < n
            invariant
                all == node.children@,
                n == all.len(),
                i <= n,
                trunks@ == all.skip(i as int),
                forall|k: int| 0 <= k < all.len() ==> trunk_ok(#[trigger] all[k]),
                trunks_error(all.take(i as int)) is None,
                out@.len() == i,
                forall|j: int| 0 <= j < i ==> built_value(#[trigger] out@[j], all[j]),
            decreases n - i,
        {
            let t = trunks.remove(0);
            assert(all.skip(i as int + 1) == all.skip(i as int).remove(0));
            assert(t == all[i as int]);
            assert(all.take(i as int + 1).drop_last() == all.take(i as int));
            assert(all.take(i as int + 1).last() == all[i as int]);
            match Self::build_duper(t) {
                Ok(v) => out.push(v),
                Err(e) => {
                    proof {
                        assert(trunks_error(all.take(i as int + 1)) == trunk_error(all[i as int]));
                        lemma_trunks_error_sticks(all, i as int + 1);
                    }
                    return Err(e);
                },
            }
            i += 1;
        }
        assert(all.take(n as int) == all);
        Ok(out)
    }

    /// Builds the value of a document's trunk node: an object or an array,
    /// with an optional identifier.
    pub fn build_duper(node: ParseNode) -> (r: Result<DuperValue, BuildError>)
        requires
            trunk_ok(node),
        ensures
            match trunk_error(node) {
                Some(e) => r matches Err(x) && error_view(x) == e,
                None => r matches Ok(v) && built_value(v, node),
            },
    {
        proof {
            lemma_node_children_decrease(node);
        }
        let ghost whole = node;
        let ParseNode { rule, text, start, end, children, float } = node;
        let mut children = children;
        let identifier = if is_identifier(&children[0].rule) {
            let id_node = children.remove(0);
            Some(DuperIdentifier::from_parsed(id_node.text))
        } else {
            None
        };
        assert(children@[0] == whole.children@[inner_index(whole)]);
        let inner_node = children.remove(0);
        let kind = classify(&inner_node.rule);
        let inner = if kind == 1 {
            match build_object(inner_node, Ghost(whole)) {
                Ok(o) => DuperInner::Object(o),
                Err(e) => return Err(e),
            }
        } else if kind == 2 {
            match build_items(inner_node.children, Ghost(whole)) {
                Ok(items) => DuperInner::Array(DuperArray::from(items)),
                Err(e) => return Err(e),
            }
        } else {
            return Err(unexpected("unexpected rule in trunk ", &inner_node.rule, start, end));
        };
        Ok(DuperValue { identifier, inner })
    }
}

/// 1 for an object, 2 for an array, 3 for a tuple, 0 otherwise.
fn classify(r: &Rule) -> (k: u8)
    ensures
        (k == 1) == (*r is Object),
        (k == 2) == (*r is Array),
        (k == 3) == (*r is Tuple),
{
    match r {
        Rule::Object => 1,
        Rule::Array => 2,
        Rule::Tuple => 3,
        _ => 0,
    }
}

fn build_value(n: ParseNode) -> (r: Result<DuperValue, BuildError>)
    requires
        value_ok(n),
    ensures
        value_outcome(r, n),
    decreases n,
{
    proof {
        lemma_node_children_decrease(n);
    }
    let ghost whole = n;
    let ParseNode { rule, text, start, end, children, float } = n;
    let mut children = children;
    let identifier = if is_identifier(&children[0].rule) {
        let id_node = children.remove(0);
        Some(DuperIdentifier::from_parsed(id_node.text))
    } else {
        None
    };
    assert(children@[0] == whole.children@[inner_index(whole)]);
    let inner_node = children.remove(0);
    let ghost inode = inner_node;
    proof {
        lemma_node_children_decrease(inode);
    }
    let kind = classify(&inner_node.rule);
    let inner = if kind == 1 {
        match build_object(inner_node, Ghost(whole)) {
            Ok(o) => DuperInner::Object(o),
            Err(e) => return Err(e),
        }
    } else if kind == 2 {
        match build_items(inner_node.children, Ghost(whole)) {
            Ok(items) => DuperInner::Array(DuperArray::from(items)),
            Err(e) => return Err(e),
        }
    } else if kind == 3 {
        match build_items(inner_node.children, Ghost(whole)) {
            Ok(items) => DuperInner::Tuple(DuperTuple::from(items)),
            Err(e) => return Err(e),
        }
    } else if is_integer(&inner_node.rule) {
        let mut digits = inner_node.children;
        let d = digits.remove(0);
        if is_integer_digits(&d.rule) {
            DuperInner::Integer(read_integer(d))
        } else {
            return Err(unexpected("unexpected rule in integer value ", &d.rule, start, end));
        }
    } else if is_scalar(&inner_node.rule) {
        match read_scalar(inner_node) {
            Ok(x) => x,
            Err(e) => return Err(e),
        }
    } else {
        return Err(unexpected("unexpected rule in value ", &inner_node.rule, start, end));
    };
    Ok(DuperValue { identifier, inner })
}

fn is_integer(r: &Rule) -> (b: bool)
    ensures
        b == (*r is Integer),
{
    match r {
        Rule::Integer => true,
        _ => false,
    }
}

fn is_integer_digits(r: &Rule) -> (b: bool)
    ensures
        b == (*r is DecimalInteger || *r is HexInteger || *r is OctalInteger || *r is BinaryInteger),
{
    match r {
        Rule::DecimalInteger | Rule::HexInteger | Rule::OctalInteger | Rule::BinaryInteger => true,
        _ => false,
    }
}

fn is_scalar(r: &Rule) -> (b: bool)
    ensures
        b == (*r is String || *r is RawString || *r is Bytes || *r is RawBytes || *r is Float
            || *r is Boolean || *r is Null),
{
    match r {
        Rule::String | Rule::RawString | Rule::Bytes | Rule::RawBytes | Rule::Float | Rule::Boolean
        | Rule::Null => true,
        _ => false,
    }
}

fn build_items(input: Vec<ParseNode>, Ghost(parent): Ghost<ParseNode>) -> (r: Result<
    Vec<DuperValue>,
    BuildError,
>)
    requires
        forall|k: int| 0 <= k < input@.len() ==> decreases_to!(parent => #[trigger] input@[k]),
        forall|k: int| 0 <= k < input@.len() ==> value_ok(#[trigger] input@[k]),
    ensures
        match items_error(input@) {
            Some(e) => r matches Err(x) && error_view(x) == e,
            None => r matches Ok(v) && v@.len() == input@.len() && forall|j: int|
                0 <= j < v@.len() ==> built_value(#[trigger] v@[j], input@[j]),
        },
    decreases parent, 0nat,
{
    let ghost all = input@;
    let mut items = input;
    let mut out: Vec<DuperValue> = Vec::new();
    let n = items.len();
    let mut i: usize = 0;
    while i < n
        invariant
            all == input@,
            n == all.len(),
            i <= n,
            items@ == all.skip(i as int),
            forall|k: int| 0 <= k < all.len() ==> decreases_to!(parent => #[trigger] all[k]),
            forall|k: int| 0 <= k < all.len() ==> value_ok(#[trigger] all[k]),
            items_error(all.take(i as int)) is None,
            out@.len() == i,
            forall|j: int| 0 <= j < i ==> built_value(#[trigger] out@[j], all[j]),
        decreases n - i,
    {
        let item = items.remove(0);
        assert(all.skip(i as int + 1) == all.skip(i as int).remove(0));
        assert(item == all[i as int]);
        assert(all.take(i as int + 1).drop_last() == all.take(i as int));
        assert(all.take(i as int + 1).last() == all[i as int]);
        match build_value(item) {
            Ok(v) => out.push(v),
            Err(e) => {
                proof {
                    assert(items_error(all.take(i as int + 1)) == value_error(all[i as int]));
                    lemma_items_error_sticks(all, i as int + 1);

                }
                return Err(e);
            },
        }
        i += 1;
    }
    assert(all.take(n as int) == all);
    Ok(out)
}

fn build_object(o: ParseNode, Ghost(parent): Ghost<ParseNode>) -> (r: Result<DuperObject, BuildError>)
    requires
        decreases_to!(parent => o),
        o.rule is Object,
        inner_ok(o),
    ensures
        match object_error(o) {
            Some(e) => r matches Err(x) && error_view(x) == e,
            None => r matches Ok(obj) && obj@.len() == o.children@.len() && forall|j: int|
                0 <= j < obj@.len() ==> built_entry(#[trigger] obj@[j], o.children@[j]),
        },
    decreases parent, 0nat,
{
    proof {
        lemma_node_children_decrease(o);
    }
    let ghost whole = o;
    let ghost all = o.children@;
    let ParseNode { rule, text, start, end, children, float } = o;
    let mut entries_in = children;
    let mut entries: Vec<(DuperKey, DuperValue)> = Vec::new();
    let n = entries_in.len();
    let mut i: usize = 0;
    while i < n
        invariant
            whole == o,
            all == whole.children@,
            whole.rule is Object,
            inner_ok(whole),
            decreases_to!(parent => whole),
            forall|k: int| 0 <= k < all.len() ==> decreases_to!(whole => #[trigger] all[k]),
            n == all.len(),
            i <= n,
            entries_in@ == all.skip(i as int),
            entries_error(all.take(i as int)) is None,
            entries@.len() == i,
            forall|j: int| 0 <= j < i ==> built_entry(#[trigger] entries@[j], all[j]),
        decreases n - i,
    {
        let e = entries_in.remove(0);
        assert(all.skip(i as int + 1) == all.skip(i as int).remove(0));
        assert(e == all[i as int]);
        assert(all.take(i as int + 1).drop_last() == all.take(i as int));
        assert(entry_ok(e));
        assert(all.take(i as int + 1).last() == all[i as int]);
        let ghost enode = e;
        proof {
            lemma_node_children_decrease(enode);
        }
        let ParseNode { rule: erule, text: etext, start: estart, end: eend, children: parts, float: efloat } = e;
        let mut parts = parts;
        let key_node = parts.remove(0);
        let value_node = parts.remove(0);
        assert(key_node == enode.children@[0]);
        assert(value_node == enode.children@[1]);
        let key_text = match key_node.rule {
            Rule::String => {
                let t = first_child_text(key_node.children);
                unescaped(t.as_str())
            },
            Rule::RawString => first_child_text(key_node.children),
            Rule::PlainKey => key_node.text,
            other => {
                let err = unexpected("unexpected rule in object key ", &other, estart, eend);
                proof {
                    assert(entries_error(all.take(i as int + 1)) == entry_error(all[i as int]));
                    lemma_entries_error_sticks(all, i as int + 1);
                }
                return Err(err);
            },
        };
        proof {
            assert(decreases_to!(parent => value_node));
        }
        match build_value(value_node) {
            Ok(v) => {
                entries.push((DuperKey::from(key_text), v));
            },
            Err(err) => {
                proof {
                    assert(entries_error(all.take(i as int + 1)) == entry_error(all[i as int]));
                    assert(entry_error(all[i as int]) == value_error(enode.children@[1]));
                    lemma_entries_error_sticks(all, i as int + 1);
                }
                return Err(err);
            },
        }
        i += 1;
    }
    assert(all.take(n as int) == all);
    let ghost built = entries@;
    match DuperObject::try_from(entries) {
        Ok(obj) => {
            proof {
                assert forall|a: int, b: int|
                    #![trigger all[a], all[b]]
                    0 <= a < b < all.len() implies key_of(all[a].children@[0]) != key_of(
                    all[b].children@[0],
                ) by {
                    assert(built_entry(built[a], all[a]));
                    assert(built_entry(built[b], all[b]));
                    assert(built[a].0@ != built[b].0@);
                }
            }
            Ok(obj)
        },
        Err(_) => {
            proof {
                let (a, b) = choose|a: int, b: int|
                    #![trigger built[a], built[b]]
                    0 <= a < b < built.len() && built[a].0@ == built[b].0@;
                assert(built_entry(built[a], all[a]));
                assert(built_entry(built[b], all[b]));
                assert(!keys_unique(all));
            }
            Err(BuildError { message: "duplicate keys in object".to_owned(), start, end })
        },
    }
}

} // verus!

verus! {

/// Whether the digits of an integer node can be read, tested.
fn integer_checked(d: &ParseNode) -> (b: bool)
    ensures
        b == integer_ok(*d),
{
    match d.rule {
        Rule::DecimalInteger => parse_integer(d.text.as_str(), 10).is_some(),
        Rule::HexInteger => prefixed_checked(d.text.as_str(), 16),
        Rule::OctalInteger => prefixed_checked(d.text.as_str(), 8),
        Rule::BinaryInteger => prefixed_checked(d.text.as_str(), 2),
        _ => true,
    }
}

/// Whether a text holds a two-character ASCII prefix followed by an integer
/// in the radix, tested.
fn prefixed_checked(text: &str, radix: u32) -> (b: bool)
    requires
        2 <= radix <= 36,
    ensures
        b == (text@.len() >= 2 && (text@[0] as int) < 128 && (text@[1] as int) < 128
            && radix_integer(text@.skip(2), radix as int) is Some),
{
    let cs = chars_of(text);
    if cs.len() < 2 || cs[0] >= '\u{80}' || cs[1] >= '\u{80}' {
        return false;
    }
    let rest = after_prefix(text);
    parse_integer(rest.as_str(), radix).is_some()
}

/// Whether a quoted text's escapes can be read, tested.
fn escapes_checked(text: &str) -> (b: bool)
    ensures
        b == json_unescaped(text@) is Some,
{
    unescape_json(text).is_some()
}

/// Whether a key node can be read, tested.
fn key_checked(k: &ParseNode) -> (b: bool)
    ensures
        b == key_ok(*k),
{
    match k.rule {
        Rule::String => k.children.len() >= 1 && escapes_checked(k.children[0].text.as_str()),
        Rule::RawString => k.children.len() >= 1,
        _ => true,
    }
}

/// Whether a value node can be built, tested.
fn value_checked(n: &ParseNode) -> (b: bool)
    ensures
        b == value_ok(*n),
    decreases n,
{
    proof {
        lemma_node_children_decrease(*n);
    }
    let k: usize = if n.children.len() > 0 && is_identifier(&n.children[0].rule) {
        1
    } else {
        0
    };
    n.children.len() > k && inner_checked(&n.children[k])
}

/// Whether an entry node can be built, tested.
fn entry_checked(e: &ParseNode) -> (b: bool)
    ensures
        b == entry_ok(*e),
    decreases e,
{
    proof {
        lemma_node_children_decrease(*e);
    }
    e.children.len() >= 2 && key_checked(&e.children[0]) && value_checked(&e.children[1])
}

/// Whether the value proper of a value node can be built, tested.
fn inner_checked(i: &ParseNode) -> (b: bool)
    ensures
        b == inner_ok(*i),
    decreases i,
{
    proof {
        lemma_node_children_decrease(*i);
    }
    match i.rule {
        Rule::Object => {
            let mut j: usize = 0;
            while j < i.children.len()
                invariant
                    i.rule is Object,
                    j <= i.children@.len(),
                    forall|m: int| 0 <= m < i.children@.len() ==> decreases_to!(*i => #[trigger] i.children@[m]),
                    forall|m: int| 0 <= m < j ==> entry_ok(#[trigger] i.children@[m]),
                decreases i.children.len() - j,
            {
                if !entry_checked(&i.children[j]) {
                    return false;
                }
                j += 1;
            }
            true
        },
        Rule::Array | Rule::Tuple => {
            let mut j: usize = 0;
            while j < i.children.len()
                invariant
                    i.rule is Array || i.rule is Tuple,
                    j <= i.children@.len(),
                    forall|m: int| 0 <= m < i.children@.len() ==> decreases_to!(*i => #[trigger] i.children@[m]),
                    forall|m: int| 0 <= m < j ==> value_ok(#[trigger] i.children@[m]),
                decreases i.children.len() - j,
            {
                if !value_checked(&i.children[j]) {
                    return false;
                }
                j += 1;
            }
            true
        },
        Rule::String | Rule::Bytes => i.children.len() >= 1 && escapes_checked(
            i.children[0].text.as_str(),
        ),
        Rule::RawString | Rule::RawBytes => i.children.len() >= 1,
        Rule::Integer => i.children.len() >= 1 && integer_checked(&i.children[0]),
        Rule::Float => i.float.is_some(),
        Rule::Boolean => {
            proof {
                reveal_strlit("true");
                reveal_strlit("false");
            }
            str_eq(i.text.as_str(), "true") || str_eq(i.text.as_str(), "false")
        },
        _ => true,
    }
}

/// Whether a trunk node can be built, tested.
fn trunk_checked(t: &ParseNode) -> (b: bool)
    ensures
        b == trunk_ok(*t),
{
    let k: usize = if t.children.len() > 0 && is_identifier(&t.children[0].rule) {
        1
    } else {
        0
    };
    if t.children.len() <= k {
        return false;
    }
    let kind = classify(&t.children[k].rule);
    if kind == 1 || kind == 2 {
        inner_checked(&t.children[k])
    } else {
        true
    }
}

/// The error for a parse tree that the Duper grammar cannot give: a part is
/// missing, an escape is malformed, or a literal cannot be read.
pub open spec fn malformed_tree(n: ParseNode) -> (Seq<char>, usize, usize) {
    ("malformed parse tree"@, n.start, n.end)
}

impl DuperBuilder {
    /// Builds the value of a document's trunk node as `build_duper` does,
    /// after testing that the tree can be built: its parts are there, its
    /// escapes and literals can be read; otherwise reports a malformed tree.
    pub fn try_build_duper(node: ParseNode) -> (r: Result<DuperValue, BuildError>)
        ensures
            !trunk_ok(node) ==> (r matches Err(x) && error_view(x) == malformed_tree(node)),
            trunk_ok(node) ==> match trunk_error(node) {
                Some(e) => r matches Err(x) && error_view(x) == e,
                None => r matches Ok(v) && built_value(v, node),
            },
    {
        if trunk_checked(&node) {
            Self::build_duper(node)
        } else {
            Err(BuildError { message: "malformed parse tree".to_owned(), start: node.start, end: node.end })
        }
    }

    /// Builds the values of a stream of documents as `build_duper_stream`
    /// does, after testing that every trunk can be built; otherwise reports a
    /// malformed tree.
    pub fn try_build_duper_stream(node: ParseNode) -> (r: Result<Vec<DuperValue>, BuildError>)
        ensures
            !(forall|i: int| 0 <= i < node.children@.len() ==> trunk_ok(#[trigger] node.children@[i]))
                ==> (r matches Err(x) && error_view(x) == malformed_tree(node)),
            (forall|i: int| 0 <= i < node.children@.len() ==> trunk_ok(#[trigger] node.children@[i]))
                ==> match trunks_error(node.children@) {
                Some(e) => r matches Err(x) && error_view(x) == e,
                None => r matches Ok(v) && v@.len() == node.children@.len() && forall|i: int|
                    0 <= i < v@.len() ==> built_value(#[trigger] v@[i], node.children@[i]),
            },
    {
        let mut j: usize = 0;
        while j < node.children.len()
            invariant
                j <= node.children@.len(),
                forall|m: int| 0 <= m < j ==> trunk_ok(#[trigger] node.children@[m]),
            decreases node.children.len() - j,
        {
            if !trunk_checked(&node.children[j]) {
                return Err(BuildError { message: "malformed parse tree".to_owned(), start: node.start, end: node.end });
            }
            j += 1;
        }
        Self::build_duper_stream(node)
    }
}

} // verus!
