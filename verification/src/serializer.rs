//! The compact serializer: writes a value on one line.
use vstd::prelude::*;
use crate::ast::{lemma_children_decrease, DuperIdentifier, DuperInner, DuperKey, DuperValue};
use crate::format::{
    boolean_text, bytes_text, format_boolean, format_bytes, format_float, format_integer,
    format_key, format_string, integer_text, key_text, string_text,
};
use crate::text::{push_char, push_str};
use crate::types::{duper_type_named, type_of_name, DuperTypes};

verus! {

/// The type named by an optional identifier.
pub open spec fn identifier_type(id: Option<DuperIdentifier>) -> Option<DuperTypes> {
    match id {
        Some(i) => duper_type_named(i@),
        None => None,
    }
}

/// `body`, or `identifier(body)` when there is an identifier.
pub open spec fn with_identifier(id: Option<DuperIdentifier>, body: Seq<char>) -> Seq<char> {
    match id {
        Some(i) => i@ + seq!['('] + body + seq![')'],
        None => body,
    }
}

/// The compact text of a value.
pub open spec fn compact_text(v: DuperValue) -> Seq<char>
    decreases v,
{
    let body = match v.inner {
        DuperInner::Object(o) => {
            proof {
                lemma_children_decrease(v);
            }
            seq!['{'] + compact_entries(o@) + seq!['}']
        },
        DuperInner::Array(a) => {
            proof {
                lemma_children_decrease(v);
            }
            seq!['['] + compact_items(a@) + seq![']']
        },
        DuperInner::Tuple(t) => {
            proof {
                lemma_children_decrease(v);
            }
            seq!['('] + compact_items(t@) + (if t@.len() <= 1 {
                seq![',']
            } else {
                seq![]
            }) + seq![')']
        },
        DuperInner::String(s) => string_text(s@),
        DuperInner::Bytes(b) => bytes_text(b@),
        DuperInner::Integer(n) => integer_text(n, identifier_type(v.identifier)),
        DuperInner::Float(f) => f.spec_text(),
        DuperInner::Boolean(b) => boolean_text(b),
        DuperInner::Null => seq!['n', 'u', 'l', 'l'],
    };
    with_identifier(v.identifier, body)
}

/// The compact texts of values, separated by `, `.
pub open spec fn compact_items(s: Seq<DuperValue>) -> Seq<char>
    decreases s,
{
    if s.len() == 0 {
        seq![]
    } else if s.len() == 1 {
        compact_text(s[0])
    } else {
        compact_items(s.drop_last()) + seq![',', ' '] + compact_text(s.last())
    }
}

/// The compact texts of object entries (`key: value`), separated by `, `.
pub open spec fn compact_entries(s: Seq<(DuperKey, DuperValue)>) -> Seq<char>
    decreases s,
{
    if s.len() == 0 {
        seq![]
    } else if s.len() == 1 {
        key_text(s[0].0@) + seq![':', ' '] + compact_text(s[0].1)
    } else {
        compact_entries(s.drop_last()) + seq![',', ' '] + key_text(s.last().0@) + seq![':', ' ']
            + compact_text(s.last().1)
    }
}

/// Writes Duper values on a single line.
pub struct Serializer;

impl Serializer {
    /// A new serializer.
    pub fn new() -> Serializer {
        Serializer
    }

    /// The compact text of `value`.
    pub fn serialize(&mut self, value: DuperValue) -> (s: String)
        ensures
            s@ == compact_text(value),
    {
        write_value(&value)
    }
}

fn write_items(items: &Vec<DuperValue>, out: &mut String, Ghost(parent): Ghost<DuperValue>)
    requires
        forall|i: int| 0 <= i < items@.len() ==> decreases_to!(parent => #[trigger] items@[i]),
    ensures
        final(out)@ == old(out)@ + compact_items(items@),
    decreases parent, 0nat,
{
    let ghost start = out@;
    let n = items.len();
    let mut i: usize = 0;
    while i < n
        invariant
            n == items@.len(),
            i <= n,
            out@ == start + compact_items(items@.take(i as int)),
            forall|k: int| 0 <= k < items@.len() ==> decreases_to!(parent => #[trigger] items@[k]),
        decreases n - i,
    {
        let ghost before = items@.take(i as int);
        let ghost after = items@.take(i as int + 1);
        assert(after.drop_last() == before);
        assert(after.last() == items@[i as int]);
        if i > 0 {
            push_str(out, ", ");
            proof {
                reveal_strlit(", ");
            }
        } else {
            assert(before.len() == 0);
        }
        let text = write_value(&items[i]);
        push_str(out, text.as_str());
        i += 1;
    }
    assert(items@.take(n as int) == items@);
}

/// The compact text of a value.
pub fn write_value(v: &DuperValue) -> (s: String)
    ensures
        s@ == compact_text(*v),
    decreases *v, 1nat,
{
    let mut body = String::new();
    match &v.inner {
        DuperInner::Object(o) => {
            proof {
                lemma_children_decrease(*v);
            }
            push_char(&mut body, '{');
            let entries = o.entries();
            let ghost start = body@;
            let n = entries.len();
            let mut i: usize = 0;
            while i < n
                invariant
                    v.inner is Object,
                    entries@ == v.inner->Object_0@,
                    decreases_to!(*v => v.inner->Object_0@),
                    n == entries@.len(),
                    i <= n,
                    body@ == start + compact_entries(entries@.take(i as int)),
                decreases n - i,
            {
                let ghost before = entries@.take(i as int);
                let ghost after = entries@.take(i as int + 1);
                assert(after.drop_last() == before);
                assert(after.last() == entries@[i as int]);
                if i > 0 {
                    push_str(&mut body, ", ");
                    proof {
                        reveal_strlit(", ");
                    }
                } else {
                    assert(before.len() == 0);
                }
                let key = format_key(entries[i].0.as_str());
                push_str(&mut body, key.as_str());
                push_str(&mut body, ": ");
                proof {
                    reveal_strlit(": ");
                    assert(decreases_to!(entries@ => entries@[i as int]));
                    assert(decreases_to!(entries@[i as int] => entries@[i as int].1));
                }
                let text = write_value(&entries[i].1);
                push_str(&mut body, text.as_str());
                i += 1;
            }
            assert(entries@.take(n as int) == entries@);
            push_char(&mut body, '}');
        },
        DuperInner::Array(a) => {
            proof {
                lemma_children_decrease(*v);
            }
            push_char(&mut body, '[');
            write_items(a.values(), &mut body, Ghost(*v));
            push_char(&mut body, ']');
        },
        DuperInner::Tuple(t) => {
            proof {
                lemma_children_decrease(*v);
            }
            push_char(&mut body, '(');
            write_items(t.values(), &mut body, Ghost(*v));
            if t.len() <= 1 {
                push_char(&mut body, ',');
            }
            push_char(&mut body, ')');
        },
        DuperInner::String(s) => {
            body = format_string(s.as_str());
        },
        DuperInner::Bytes(b) => {
            body = format_bytes(b.as_slice());
        },
        DuperInner::Integer(n) => {
            let typ = match &v.identifier {
                Some(id) => type_of_name(id.as_str()),
                None => None,
            };
            body = format_integer(*n, typ);
        },
        DuperInner::Float(f) => {
            body = format_float(f);
        },
        DuperInner::Boolean(b) => {
            body = format_boolean(*b);
        },
        DuperInner::Null => {
            push_str(&mut body, "null");
            proof {
                reveal_strlit("null");
            }
        },
    }
    match &v.identifier {
        Some(id) => {
            let mut s = String::new();
            push_str(&mut s, id.as_str());
            push_char(&mut s, '(');
            push_str(&mut s, body.as_str());
            push_char(&mut s, ')');
            s
        },
        None => body,
    }
}

} // verus!
