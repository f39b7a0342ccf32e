//! The first-generation pretty printer, which indents by two columns and
//! always keeps identifiers.
use vstd::prelude::*;
use crate::ast::{lemma_children_decrease, DuperInner, DuperKey, DuperValue};
use crate::format::{
    boolean_text, bytes_text, format_boolean, format_bytes, format_float, format_integer,
    format_key, format_string, integer_text, key_text, string_text,
};
use crate::serializer::identifier_type;
use crate::text::{byte_len, push_str};
use crate::types::type_of_name;
use crate::visitor::pretty_printer::{indentation_of, spaces, too_long};

verus! {

/// Whether printing `v` at indentation `curr` never raises the indentation
/// past `usize::MAX`.
pub open spec fn legacy_fits(v: DuperValue, curr: nat) -> bool
    decreases v,
{
    let named = v.identifier is Some;
    match v.inner {
        DuperInner::Object(o) => {
            proof {
                lemma_children_decrease(v);
            }
            o@.len() > 0 ==> curr + 2 <= usize::MAX && forall|i: int|
                0 <= i < o@.len() ==> legacy_fits(#[trigger] o@[i].1, curr + 2)
        },
        DuperInner::Array(a) => {
            proof {
                lemma_children_decrease(v);
            }
            a@.len() > 0 ==> curr + 2 <= usize::MAX && forall|i: int|
                0 <= i < a@.len() ==> legacy_fits(#[trigger] a@[i], curr + 2)
        },
        DuperInner::Tuple(t) => {
            proof {
                lemma_children_decrease(v);
            }
            if t@.len() == 1 {
                legacy_fits(t@[0], curr)
            } else {
                t@.len() > 1 ==> curr + 2 <= usize::MAX && forall|i: int|
                    0 <= i < t@.len() ==> legacy_fits(#[trigger] t@[i], curr + 2)
            }
        },
        DuperInner::String(s) => named && too_long(string_text(s@), curr) ==> curr + 2
            <= usize::MAX,
        DuperInner::Bytes(b) => named && too_long(bytes_text(b@), curr) ==> curr + 2
            <= usize::MAX,
        _ => true,
    }
}

/// `identifier(text)` when there is an identifier, `text` otherwise.
pub open spec fn wrapped(named: bool, id: Seq<char>, text: Seq<char>) -> Seq<char> {
    if named {
        id + "("@ + text + ")"@
    } else {
        text
    }
}

/// The text that the first-generation printer writes for `v` at indentation
/// `curr`.
pub open spec fn legacy_text(v: DuperValue, curr: nat) -> Seq<char>
    decreases v,
{
    let named = v.identifier is Some;
    let id = if named {
        v.identifier->0@
    } else {
        Seq::<char>::empty()
    };
    match v.inner {
        DuperInner::Object(o) => {
            proof {
                lemma_children_decrease(v);
            }
            if named {
                if o@.len() == 0 {
                    id + "({})"@
                } else {
                    id + "({\n"@ + legacy_entries(o@, curr + 2, true) + spaces(curr) + "})\n"@
                }
            } else if o@.len() == 0 {
                "{}"@
            } else {
                "{\n"@ + legacy_entries(o@, curr + 2, false) + "}"@
            }
        },
        DuperInner::Array(a) => {
            proof {
                lemma_children_decrease(v);
            }
            if named {
                if a@.len() == 0 {
                    id + "([])"@
                } else {
                    id + "(["@ + legacy_items(a@, curr + 2) + spaces(curr) + "])\n"@
                }
            } else if a@.len() == 0 {
                "[]"@
            } else {
                "["@ + legacy_items(a@, curr + 2) + spaces(curr) + "]"@
            }
        },
        DuperInner::Tuple(t) => {
            proof {
                lemma_children_decrease(v);
            }
            if named {
                if t@.len() == 0 {
                    id + "((,))"@
                } else if t@.len() == 1 {
                    id + "(("@ + legacy_text(t@[0], curr) + ",))"@
                } else {
                    id + "(("@ + legacy_items(t@, curr + 2) + spaces(curr) + "))"@
                }
            } else if t@.len() == 0 {
                "(,)"@
            } else if t@.len() == 1 {
                "("@ + legacy_text(t@[0], curr) + ",)"@
            } else {
                "("@ + legacy_items(t@, curr + 2) + ")"@
            }
        },
        DuperInner::String(s) => {
            let text = string_text(s@);
            if named && too_long(text, curr) {
                id + "(\n"@ + spaces(curr + 2) + text + spaces(curr) + ")"@
            } else {
                wrapped(named, id, text)
            }
        },
        DuperInner::Bytes(b) => {
            let text = bytes_text(b@);
            if named && too_long(text, curr) {
                id + "(\n"@ + spaces(curr + 2) + text + spaces(curr) + ")"@
            } else {
                wrapped(named, id, text)
            }
        },
        DuperInner::Integer(n) => wrapped(named, id, integer_text(n, identifier_type(v.identifier))),
        DuperInner::Float(f) => wrapped(named, id, f.spec_text()),
        DuperInner::Boolean(b) => wrapped(named, id, boolean_text(b)),
        DuperInner::Null => wrapped(named, id, "null"@),
    }
}

/// Each value on its own line at indentation `level`, followed by `,`.
pub open spec fn legacy_items(s: Seq<DuperValue>, level: nat) -> Seq<char>
    decreases s,
{
    if s.len() == 0 {
        seq![]
    } else {
        legacy_items(s.drop_last(), level) + spaces(level) + legacy_text(s.last(), level) + ",\n"@
    }
}

/// Each entry as `key: value` followed by `,` and a line break; the key is
/// indented to `level` only when `indented` holds.
pub open spec fn legacy_entries(s: Seq<(DuperKey, DuperValue)>, level: nat, indented: bool) -> Seq<
    char,
>
    decreases s,
{
    if s.len() == 0 {
        seq![]
    } else {
        legacy_entries(s.drop_last(), level, indented) + (if indented {
            spaces(level)
        } else {
            Seq::<char>::empty()
        }) + key_text(s.last().0@) + ": "@ + legacy_text(s.last().1, level) + ",\n"@
    }
}

/// Writes Duper values over several lines, two columns per level.
pub struct PrettyPrinter {
    indent: usize,
}

impl PrettyPrinter {
    /// The current indentation, in columns.
    pub closed spec fn level(&self) -> nat {
        self.indent as nat
    }

    /// A printer at indentation zero.
    pub fn new() -> (p: PrettyPrinter)
        ensures
            p.level() == 0,
    {
        PrettyPrinter { indent: 0 }
    }

    /// The pretty text of `value`.
    pub fn serialize(&mut self, value: DuperValue) -> (s: String)
        requires
            legacy_fits(value, old(self).level()),
        ensures
            s@ == legacy_text(value, old(self).level()),
            *final(self) == *old(self),
    {
        self.print_value(&value)
    }

    fn increase_indentation(&mut self)
        requires
            old(self).indent + 2 <= usize::MAX,
        ensures
            final(self).indent == old(self).indent + 2,
    {
        self.indent = self.indent + 2;
    }

    fn decrease_indentation(&mut self)
        requires
            old(self).indent >= 2,
        ensures
            final(self).indent == old(self).indent - 2,
    {
        self.indent = self.indent - 2;
    }

    fn indentation(&self) -> (s: String)
        ensures
            s@ == spaces(self.indent as nat),
    {
        indentation_of(self.indent)
    }

    fn too_long_here(&self, text: &str) -> (r: bool)
        ensures
            r == too_long(text@, self.indent as nat),
    {
        let n = byte_len(text);
        if self.indent > 60 {
            true
        } else {
            n > 60 - self.indent
        }
    }

    fn print_items(&mut self, items: &Vec<DuperValue>, out: &mut String, Ghost(parent): Ghost<DuperValue>)
        requires
            forall|i: int| 0 <= i < items@.len() ==> decreases_to!(parent => #[trigger] items@[i]),
            forall|i: int|
                0 <= i < items@.len() ==> legacy_fits(#[trigger] items@[i], old(self).indent as nat),
        ensures
            *final(self) == *old(self),
            final(out)@ == old(out)@ + legacy_items(items@, old(self).indent as nat),
        decreases parent, 0nat,
    {
        let ghost start = out@;
        let ghost me = *self;
        let n = items.len();
        let mut i: usize = 0;
        while i < n
            invariant
                *self == me,
                n == items@.len(),
                i <= n,
                out@ == start + legacy_items(items@.take(i as int), me.indent as nat),
                forall|k: int| 0 <= k < items@.len() ==> decreases_to!(parent => #[trigger] items@[k]),
                forall|k: int|
                    0 <= k < items@.len() ==> legacy_fits(#[trigger] items@[k], me.indent as nat),
            decreases n - i,
        {
            let ghost before = items@.take(i as int);
            let ghost after = items@.take(i as int + 1);
            assert(after.drop_last() == before);
            assert(after.last() == items@[i as int]);
            let ind = self.indentation();
            push_str(out, ind.as_str());
            let text = self.print_value(&items[i]);
            push_str(out, text.as_str());
            push_str(out, ",\n");
            i += 1;
        }
        assert(items@.take(n as int) == items@);
    }

    fn print_entries(
        &mut self,
        entries: &Vec<(DuperKey, DuperValue)>,
        indented: bool,
        out: &mut String,
        Ghost(parent): Ghost<DuperValue>,
    )
        requires
            forall|i: int|
                0 <= i < entries@.len() ==> decreases_to!(parent => #[trigger] entries@[i]),
            forall|i: int|
                0 <= i < entries@.len() ==> legacy_fits(
                    #[trigger] entries@[i].1,
                    old(self).indent as nat,
                ),
        ensures
            *final(self) == *old(self),
            final(out)@ == old(out)@ + legacy_entries(entries@, old(self).indent as nat, indented),
        decreases parent, 0nat,
    {
        let ghost start = out@;
        let ghost me = *self;
        let n = entries.len();
        let mut i: usize = 0;
        while i < n
            invariant
                *self == me,
                n == entries@.len(),
                i <= n,
                out@ == start + legacy_entries(entries@.take(i as int), me.indent as nat, indented),
                forall|k: int|
                    0 <= k < entries@.len() ==> decreases_to!(parent => #[trigger] entries@[k]),
                forall|k: int|
                    0 <= k < entries@.len() ==> legacy_fits(#[trigger] entries@[k].1, me.indent as nat),
            decreases n - i,
        {
            let ghost before = entries@.take(i as int);
            let ghost after = entries@.take(i as int + 1);
            assert(after.drop_last() == before);
            assert(after.last() == entries@[i as int]);
            if indented {
                let ind = self.indentation();
                push_str(out, ind.as_str());
            }
            let key = format_key(entries[i].0.as_str());
            push_str(out, key.as_str());
            push_str(out, ": ");
            proof {
                assert(decreases_to!(entries@[i as int] => entries@[i as int].1));
            }
            let text = self.print_value(&entries[i].1);
            push_str(out, text.as_str());
            push_str(out, ",\n");
            i += 1;
        }
        assert(entries@.take(n as int) == entries@);
    }

    fn print_value(&mut self, v: &DuperValue) -> (s: String)
        requires
            legacy_fits(*v, old(self).indent as nat),
        ensures
            *final(self) == *old(self),
            s@ == legacy_text(*v, old(self).indent as nat),
        decreases *v, 1nat,
    {
        let named = v.identifier.is_some();
        let mut s = String::new();
        match &v.identifier {
            Some(id) => push_str(&mut s, id.as_str()),
            None => {},
        }
        proof {
            lemma_children_decrease(*v);
        }
        match &v.inner {
            DuperInner::Object(o) => {
                if o.is_empty() {
                    if named {
                        push_str(&mut s, "({})");
                    } else {
                        push_str(&mut s, "{}");
                    }
                } else {
                    if named {
                        push_str(&mut s, "({\n");
                    } else {
                        push_str(&mut s, "{\n");
                    }
                    self.increase_indentation();
                    self.print_entries(o.entries(), named, &mut s, Ghost(*v));
                    self.decrease_indentation();
                    if named {
                        let ind = self.indentation();
                        push_str(&mut s, ind.as_str());
                        push_str(&mut s, "})\n");
                    } else {
                        push_str(&mut s, "}");
                    }
                }
            },
            DuperInner::Array(a) => {
                if a.is_empty() {
                    if named {
                        push_str(&mut s, "([])");
                    } else {
                        push_str(&mut s, "[]");
                    }
                } else {
                    if named {
                        push_str(&mut s, "([");
                    } else {
                        push_str(&mut s, "[");
                    }
                    self.increase_indentation();
                    self.print_items(a.values(), &mut s, Ghost(*v));
                    self.decrease_indentation();
                    let ind = self.indentation();
                    push_str(&mut s, ind.as_str());
                    if named {
                        push_str(&mut s, "])\n");
                    } else {
                        push_str(&mut s, "]");
                    }
                }
            },
            DuperInner::Tuple(t) => {
                if t.is_empty() {
                    if named {
                        push_str(&mut s, "((,))");
                    } else {
                        push_str(&mut s, "(,)");
                    }
                } else if t.len() == 1 {
                    if named {
                        push_str(&mut s, "((");
                    } else {
                        push_str(&mut s, "(");
                    }
                    let items = t.values();
                    proof {
                        assert(decreases_to!(items@ => items@[0]));
                    }
                    let text = self.print_value(&items[0]);
                    push_str(&mut s, text.as_str());
                    if named {
                        push_str(&mut s, ",))");
                    } else {
                        push_str(&mut s, ",)");
                    }
                } else {
                    if named {
                        push_str(&mut s, "((");
                    } else {
                        push_str(&mut s, "(");
                    }
                    self.increase_indentation();
                    self.print_items(t.values(), &mut s, Ghost(*v));
                    self.decrease_indentation();
                    if named {
                        let ind = self.indentation();
                        push_str(&mut s, ind.as_str());
                        push_str(&mut s, "))");
                    } else {
                        push_str(&mut s, ")");
                    }
                }
            },
            DuperInner::String(st) => {
                let text = format_string(st.as_str());
                self.push_maybe_long(&mut s, named, text.as_str());
            },
            DuperInner::Bytes(b) => {
                let text = format_bytes(b.as_slice());
                self.push_maybe_long(&mut s, named, text.as_str());
            },
            DuperInner::Integer(n) => {
                let typ = match &v.identifier {
                    Some(id) => type_of_name(id.as_str()),
                    None => None,
                };
                let text = format_integer(*n, typ);
                push_wrapped(&mut s, named, text.as_str());
            },
            DuperInner::Float(f) => {
                let text = format_float(f);
                push_wrapped(&mut s, named, text.as_str());
            },
            DuperInner::Boolean(b) => {
                let text = format_boolean(*b);
                push_wrapped(&mut s, named, text.as_str());
            },
            DuperInner::Null => {
                push_wrapped(&mut s, named, "null");
            },
        }
        s
    }

    /// Writes a string or bytes text after its identifier, on a line of its
    /// own when it is too long.
    fn push_maybe_long(&mut self, s: &mut String, named: bool, text: &str)
        requires
            named && too_long(text@, old(self).indent as nat) ==> old(self).indent + 2
                <= usize::MAX,
        ensures
            *final(self) == *old(self),
            named && too_long(text@, old(self).indent as nat) ==> final(s)@ == old(s)@ + "(\n"@
                + spaces(old(self).indent as nat + 2) + text@ + spaces(old(self).indent as nat)
                + ")"@,
            !(named && too_long(text@, old(self).indent as nat)) ==> final(s)@ == old(s)@
                + wrapped(named, Seq::empty(), text@),
    {
        if named && self.too_long_here(text) {
            push_str(s, "(\n");
            self.increase_indentation();
            let ind = self.indentation();
            push_str(s, ind.as_str());
            push_str(s, text);
            self.decrease_indentation();
            let ind = self.indentation();
            push_str(s, ind.as_str());
            push_str(s, ")");
        } else {
            push_wrapped(s, named, text);
            proof {
                if named {
                    assert(Seq::<char>::empty() + "("@ + text@ + ")"@ == "("@ + text@ + ")"@);
                }
            }
        }
    }
}

fn push_wrapped(s: &mut String, named: bool, text: &str)
    ensures
        named ==> final(s)@ == old(s)@ + "("@ + text@ + ")"@,
        !named ==> final(s)@ == old(s)@ + text@,
{
    if named {
        push_str(s, "(");
        push_str(s, text);
        push_str(s, ")");
    } else {
        push_str(s, text);
    }
}

} // verus!
