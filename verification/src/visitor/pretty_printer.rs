//! The pretty printer: writes a value over several indented lines.
use vstd::prelude::*;
use crate::ast::{lemma_children_decrease, DuperInner, DuperKey, DuperValue};
use crate::format::{
    boolean_text, bytes_text, decimal_text, format_boolean, format_bytes, format_float,
    format_integer, format_key, format_string, key_text, string_text,
};
use crate::text::{byte_len, push_char, push_str, utf8_len};

verus! {

/// `n` spaces.
pub open spec fn spaces(n: nat) -> Seq<char> {
    Seq::new(n, |i: int| ' ')
}

/// A string of `n` spaces.
pub fn indentation_of(n: usize) -> (s: String)
    ensures
        s@ == spaces(n as nat),
{
    let mut s = String::new();
    let mut i: usize = 0;
    while i < n
        invariant
            i <= n,
            s@ == spaces(i as nat),
        decreases n - i,
    {
        push_char(&mut s, ' ');
        i += 1;
        assert(s@ =~= spaces(i as nat));
    }
    s
}

/// Whether a text written after `curr` columns of indentation is too long to
/// stay on the identifier's line (more than sixty bytes in all).
pub open spec fn too_long(text: Seq<char>, curr: nat) -> bool {
    utf8_len(text) + curr > 60
}

/// Whether printing `v` at indentation `curr` never raises the indentation
/// past `usize::MAX`.
pub open spec fn pretty_fits(v: DuperValue, strip: bool, curr: nat, ind: nat) -> bool
    decreases v,
{
    let named = !strip && v.identifier is Some;
    match v.inner {
        DuperInner::Object(o) => {
            proof {
                lemma_children_decrease(v);
            }
            o@.len() > 0 ==> curr + ind <= usize::MAX && forall|i: int|
                0 <= i < o@.len() ==> pretty_fits(#[trigger] o@[i].1, strip, curr + ind, ind)
        },
        DuperInner::Array(a) => {
            proof {
                lemma_children_decrease(v);
            }
            a@.len() > 0 ==> curr + ind <= usize::MAX && forall|i: int|
                0 <= i < a@.len() ==> pretty_fits(#[trigger] a@[i], strip, curr + ind, ind)
        },
        DuperInner::Tuple(t) => {
            proof {
                lemma_children_decrease(v);
            }
            if t@.len() == 1 {
                pretty_fits(t@[0], strip, curr, ind)
            } else {
                t@.len() > 1 ==> curr + ind <= usize::MAX && forall|i: int|
                    0 <= i < t@.len() ==> pretty_fits(#[trigger] t@[i], strip, curr + ind, ind)
            }
        },
        DuperInner::String(s) => named && too_long(string_text(s@), curr) ==> curr + ind
            <= usize::MAX,
        DuperInner::Bytes(b) => named && too_long(bytes_text(b@), curr) ==> curr + ind
            <= usize::MAX,
        _ => true,
    }
}

/// The pretty text of a value printed at indentation `curr`, with `ind`
/// more columns per level; identifiers are left out when `strip` holds.
pub open spec fn pretty_text(v: DuperValue, strip: bool, curr: nat, ind: nat) -> Seq<char>
    decreases v,
{
    let named = !strip && v.identifier is Some;
    let id = if named {
        v.identifier->0@
    } else {
        Seq::<char>::empty()
    };
    match v.inner {
        DuperInner::Object(o) => {
            proof {
                lemma_children_decrease(v);
            }
            if named {
                if o@.len() == 0 {
                    id + "({})"@
                } else {
                    id + "({\n"@ + pretty_entries(o@, strip, curr + ind, ind) + spaces(curr)
                        + "})\n"@
                }
            } else if o@.len() == 0 {
                "{}"@
            } else {
                "{\n"@ + pretty_entries(o@, strip, curr + ind, ind) + spaces(curr) + "}"@
            }
        },
        DuperInner::Array(a) => {
            proof {
                lemma_children_decrease(v);
            }
            if named {
                if a@.len() == 0 {
                    id + "([])"@
                } else {
                    id + "([\n"@ + pretty_items(a@, strip, curr + ind, ind) + spaces(curr)
                        + "])\n"@
                }
            } else if a@.len() == 0 {
                "[]"@
            } else {
                "[\n"@ + pretty_items(a@, strip, curr + ind, ind) + spaces(curr) + "]"@
            }
        },
        DuperInner::Tuple(t) => {
            proof {
                lemma_children_decrease(v);
            }
            if named {
                if t@.len() == 0 {
                    id + "((,))"@
                } else if t@.len() == 1 {
                    id + "(("@ + pretty_text(t@[0], strip, curr, ind) + ",))"@
                } else {
                    id + "((\n"@ + pretty_items(t@, strip, curr + ind, ind) + spaces(curr) + "))"@
                }
            } else if t@.len() == 0 {
                "(,)"@
            } else if t@.len() == 1 {
                "("@ + pretty_text(t@[0], strip, curr, ind) + ",)"@
            } else {
                "(\n"@ + pretty_items(t@, strip, curr + ind, ind) + spaces(curr) + ")"@
            }
        },
        DuperInner::String(s) => {
            let text = string_text(s@);
            if named && too_long(text, curr) {
                id + "(\n"@ + spaces(curr + ind) + text + "\n"@ + spaces(curr) + ")"@
            } else if named {
                id + "("@ + text + ")"@
            } else {
                text
            }
        },
        DuperInner::Bytes(b) => {
            let text = bytes_text(b@);
            if named && too_long(text, curr) {
                id + "(\n"@ + spaces(curr + ind) + text + spaces(curr) + ")"@
            } else if named {
                id + "("@ + text + ")"@
            } else {
                text
            }
        },
        DuperInner::Integer(n) => scalar_text(named, id, decimal_text(n as int)),
        DuperInner::Float(f) => scalar_text(named, id, f.spec_text()),
        DuperInner::Boolean(b) => scalar_text(named, id, boolean_text(b)),
        DuperInner::Null => scalar_text(named, id, "null"@),
    }
}

/// `identifier(text)` when named, `text` otherwise.
pub open spec fn scalar_text(named: bool, id: Seq<char>, text: Seq<char>) -> Seq<char> {
    if named {
        id + "("@ + text + ")"@
    } else {
        text
    }
}

/// Each value on its own line at indentation `level`, followed by `,`.
pub open spec fn pretty_items(s: Seq<DuperValue>, strip: bool, level: nat, ind: nat) -> Seq<char>
    decreases s,
{
    if s.len() == 0 {
        seq![]
    } else {
        pretty_items(s.drop_last(), strip, level, ind) + spaces(level) + pretty_text(
            s.last(),
            strip,
            level,
            ind,
        ) + ",\n"@
    }
}

/// Each entry as `key: value` on its own line at indentation `level`,
/// followed by `,`.
pub open spec fn pretty_entries(
    s: Seq<(DuperKey, DuperValue)>,
    strip: bool,
    level: nat,
    ind: nat,
) -> Seq<char>
    decreases s,
{
    if s.len() == 0 {
        seq![]
    } else {
        pretty_entries(s.drop_last(), strip, level, ind) + spaces(level) + key_text(s.last().0@)
            + ": "@ + pretty_text(s.last().1, strip, level, ind) + ",\n"@
    }
}

} // verus!

verus! {

/// Writes Duper values over several lines, indenting nested values.
pub struct PrettyPrinter {
    strip_identifiers: bool,
    curr_indent: usize,
    indent: usize,
}

impl PrettyPrinter {
    /// Whether identifiers are left out.
    pub closed spec fn strips(&self) -> bool {
        self.strip_identifiers
    }

    /// Columns of indentation per nesting level.
    pub closed spec fn step(&self) -> nat {
        self.indent as nat
    }

    /// The current indentation, in columns.
    pub closed spec fn level(&self) -> nat {
        self.curr_indent as nat
    }

    /// A printer that keeps identifiers and indents by two columns.
    pub fn default() -> (p: PrettyPrinter)
        ensures
            !p.strips(),
            p.step() == 2,
            p.level() == 0,
    {
        PrettyPrinter { strip_identifiers: false, curr_indent: 0, indent: 2 }
    }

    /// A printer with the given identifier policy and indentation step.
    pub fn new(strip_identifiers: bool, indent: usize) -> (p: PrettyPrinter)
        ensures
            p.strips() == strip_identifiers,
            p.step() == indent,
            p.level() == 0,
    {
        PrettyPrinter { strip_identifiers, curr_indent: 0, indent }
    }

    /// The pretty text of `value`.
    pub fn pretty_print(&mut self, value: DuperValue) -> (s: String)
        requires
            pretty_fits(value, old(self).strips(), old(self).level(), old(self).step()),
        ensures
            s@ == pretty_text(value, old(self).strips(), old(self).level(), old(self).step()),
            *final(self) == *old(self),
    {
        self.print_value(&value)
    }

    fn increase_indentation(&mut self)
        requires
            old(self).curr_indent + old(self).indent <= usize::MAX,
        ensures
            final(self).curr_indent == old(self).curr_indent + old(self).indent,
            final(self).indent == old(self).indent,
            final(self).strip_identifiers == old(self).strip_identifiers,
    {
        self.curr_indent = self.curr_indent + self.indent;
    }

    fn decrease_indentation(&mut self)
        requires
            old(self).curr_indent >= old(self).indent,
        ensures
            final(self).curr_indent == old(self).curr_indent - old(self).indent,
            final(self).indent == old(self).indent,
            final(self).strip_identifiers == old(self).strip_identifiers,
    {
        self.curr_indent = self.curr_indent - self.indent;
    }

    fn indentation(&self) -> (s: String)
        ensures
            s@ == spaces(self.curr_indent as nat),
    {
        indentation_of(self.curr_indent)
    }

    fn print_items(&mut self, items: &Vec<DuperValue>, out: &mut String, Ghost(parent): Ghost<DuperValue>)
        requires
            forall|i: int| 0 <= i < items@.len() ==> decreases_to!(parent => #[trigger] items@[i]),
            forall|i: int|
                0 <= i < items@.len() ==> pretty_fits(
                    #[trigger] items@[i],
                    old(self).strip_identifiers,
                    old(self).curr_indent as nat,
                    old(self).indent as nat,
                ),
        ensures
            *final(self) == *old(self),
            final(out)@ == old(out)@ + pretty_items(
                items@,
                old(self).strip_identifiers,
                old(self).curr_indent as nat,
                old(self).indent as nat,
            ),
        decreases parent, 0nat,
    {
        let ghost start = out@;
        let ghost me = *self;
        let n = items.len();
        let mut i: usize = 0;
        while i < n
            invariant
                *self == me,
                n == items@.len(),
                i <= n,
                out@ == start + pretty_items(
                    items@.take(i as int),
                    me.strip_identifiers,
                    me.curr_indent as nat,
                    me.indent as nat,
                ),
                forall|k: int| 0 <= k < items@.len() ==> decreases_to!(parent => #[trigger] items@[k]),
                forall|k: int|
                    0 <= k < items@.len() ==> pretty_fits(
                        #[trigger] items@[k],
                        me.strip_identifiers,
                        me.curr_indent as nat,
                        me.indent as nat,
                    ),
            decreases n - i,
        {
            let ghost before = items@.take(i as int);
            let ghost after = items@.take(i as int + 1);
            assert(after.drop_last() == before);
            assert(after.last() == items@[i as int]);
            let ind = self.indentation();
            push_str(out, ind.as_str());
            let text = self.print_value(&items[i]);
            push_str(out, text.as_str());
            push_str(out, ",\n");
            i += 1;
        }
        assert(items@.take(n as int) == items@);
    }

    fn print_entries(
        &mut self,
        entries: &Vec<(DuperKey, DuperValue)>,
        out: &mut String,
        Ghost(parent): Ghost<DuperValue>,
    )
        requires
            forall|i: int|
                0 <= i < entries@.len() ==> decreases_to!(parent => #[trigger] entries@[i]),
            forall|i: int|
                0 <= i < entries@.len() ==> pretty_fits(
                    #[trigger] entries@[i].1,
                    old(self).strip_identifiers,
                    old(self).curr_indent as nat,
                    old(self).indent as nat,
                ),
        ensures
            *final(self) == *old(self),
            final(out)@ == old(out)@ + pretty_entries(
                entries@,
                old(self).strip_identifiers,
                old(self).curr_indent as nat,
                old(self).indent as nat,
            ),
        decreases parent, 0nat,
    {
        let ghost start = out@;
        let ghost me = *self;
        let n = entries.len();
        let mut i: usize = 0;
        while i < n
            invariant
                *self == me,
                n == entries@.len(),
                i <= n,
                out@ == start + pretty_entries(
                    entries@.take(i as int),
                    me.strip_identifiers,
                    me.curr_indent as nat,
                    me.indent as nat,
                ),
                forall|k: int|
                    0 <= k < entries@.len() ==> decreases_to!(parent => #[trigger] entries@[k]),
                forall|k: int|
                    0 <= k < entries@.len() ==> pretty_fits(
                        #[trigger] entries@[k].1,
                        me.strip_identifiers,
                        me.curr_indent as nat,
                        me.indent as nat,
                    ),
            decreases n - i,
        {
            let ghost before = entries@.take(i as int);
            let ghost after = entries@.take(i as int + 1);
            assert(after.drop_last() == before);
            assert(after.last() == entries@[i as int]);
            let ind = self.indentation();
            push_str(out, ind.as_str());
            let key = format_key(entries[i].0.as_str());
            push_str(out, key.as_str());
            push_str(out, ": ");
            proof {
                assert(decreases_to!(entries@[i as int] => entries@[i as int].1));
            }
            let text = self.print_value(&entries[i].1);
            push_str(out, text.as_str());
            push_str(out, ",\n");
            i += 1;
        }
        assert(entries@.take(n as int) == entries@);
    }

    /// Whether `text` plus the current indentation is over sixty bytes.
    fn too_long_here(&self, text: &str) -> (r: bool)
        ensures
            r == too_long(text@, self.curr_indent as nat),
    {
        let n = byte_len(text);
        if self.curr_indent > 60 {
            true
        } else {
            n > 60 - self.curr_indent
        }
    }

    fn print_value(&mut self, v: &DuperValue) -> (s: String)
        requires
            pretty_fits(
                *v,
                old(self).strip_identifiers,
                old(self).curr_indent as nat,
                old(self).indent as nat,
            ),
        ensures
            *final(self) == *old(self),
            s@ == pretty_text(
                *v,
                old(self).strip_identifiers,
                old(self).curr_indent as nat,
                old(self).indent as nat,
            ),
        decreases *v, 1nat,
    {
        let named = !self.strip_identifiers && v.identifier.is_some();
        let mut s = String::new();
        if named {
            match &v.identifier {
                Some(id) => push_str(&mut s, id.as_str()),
                None => {},
            }
        }
        proof {
            lemma_children_decrease(*v);
        }
        match &v.inner {
            DuperInner::Object(o) => {
                if o.is_empty() {
                    if named {
                        push_str(&mut s, "({})");
                    } else {
                        push_str(&mut s, "{}");
                    }
                } else {
                    if named {
                        push_str(&mut s, "({\n");
                    } else {
                        push_str(&mut s, "{\n");
                    }
                    self.increase_indentation();
                    self.print_entries(o.entries(), &mut s, Ghost(*v));
                    self.decrease_indentation();
                    let ind = self.indentation();
                    push_str(&mut s, ind.as_str());
                    if named {
                        push_str(&mut s, "})\n");
                    } else {
                        push_str(&mut s, "}");
                    }
                }
            },
            DuperInner::Array(a) => {
                if a.is_empty() {
                    if named {
                        push_str(&mut s, "([])");
                    } else {
                        push_str(&mut s, "[]");
                    }
                } else {
                    if named {
                        push_str(&mut s, "([\n");
                    } else {
                        push_str(&mut s, "[\n");
                    }
                    self.increase_indentation();
                    self.print_items(a.values(), &mut s, Ghost(*v));
                    self.decrease_indentation();
                    let ind = self.indentation();
                    push_str(&mut s, ind.as_str());
                    if named {
                        push_str(&mut s, "])\n");
                    } else {
                        push_str(&mut s, "]");
                    }
                }
            },
            DuperInner::Tuple(t) => {
                if t.is_empty() {
                    if named {
                        push_str(&mut s, "((,))");
                    } else {
                        push_str(&mut s, "(,)");
                    }
                } else if t.len() == 1 {
                    if named {
                        push_str(&mut s, "((");
                    } else {
                        push_str(&mut s, "(");
                    }
                    let items = t.values();
                    proof {
                        assert(decreases_to!(items@ => items@[0]));
                    }
                    let text = self.print_value(&items[0]);
                    push_str(&mut s, text.as_str());
                    if named {
                        push_str(&mut s, ",))");
                    } else {
                        push_str(&mut s, ",)");
                    }
                } else {
                    if named {
                        push_str(&mut s, "((\n");
                    } else {
                        push_str(&mut s, "(\n");
                    }
                    self.increase_indentation();
                    self.print_items(t.values(), &mut s, Ghost(*v));
                    self.decrease_indentation();
                    let ind = self.indentation();
                    push_str(&mut s, ind.as_str());
                    if named {
                        push_str(&mut s, "))");
                    } else {
                        push_str(&mut s, ")");
                    }
                }
            },
            DuperInner::String(st) => {
                let text = format_string(st.as_str());
                if named && self.too_long_here(text.as_str()) {
                    push_str(&mut s, "(\n");
                    self.increase_indentation();
                    let ind = self.indentation();
                    push_str(&mut s, ind.as_str());
                    push_str(&mut s, text.as_str());
                    push_str(&mut s, "\n");
                    self.decrease_indentation();
                    let ind = self.indentation();
                    push_str(&mut s, ind.as_str());
                    push_str(&mut s, ")");
                } else if named {
                    push_str(&mut s, "(");
                    push_str(&mut s, text.as_str());
                    push_str(&mut s, ")");
                } else {
                    s = text;
                }
            },
            DuperInner::Bytes(b) => {
                let text = format_bytes(b.as_slice());
                if named && self.too_long_here(text.as_str()) {
                    push_str(&mut s, "(\n");
                    self.increase_indentation();
                    let ind = self.indentation();
                    push_str(&mut s, ind.as_str());
                    push_str(&mut s, text.as_str());
                    self.decrease_indentation();
                    let ind = self.indentation();
                    push_str(&mut s, ind.as_str());
                    push_str(&mut s, ")");
                } else if named {
                    push_str(&mut s, "(");
                    push_str(&mut s, text.as_str());
                    push_str(&mut s, ")");
                } else {
                    s = text;
                }
            },
            DuperInner::Integer(n) => {
                let text = format_integer(*n, None);
                push_scalar(&mut s, named, text.as_str());
            },
            DuperInner::Float(f) => {
                let text = format_float(f);
                push_scalar(&mut s, named, text.as_str());
            },
            DuperInner::Boolean(b) => {
                let text = format_boolean(*b);
                push_scalar(&mut s, named, text.as_str());
            },
            DuperInner::Null => {
                push_scalar(&mut s, named, "null");
            },
        }
        s
    }
}

fn push_scalar(s: &mut String, named: bool, text: &str)
    ensures
        named ==> final(s)@ == old(s)@ + "("@ + text@ + ")"@,
        !named ==> final(s)@ == old(s)@ + text@,
{
    if named {
        push_str(s, "(");
        push_str(s, text);
        push_str(s, ")");
    } else {
        push_str(s, text);
    }
}

} // verus!

verus! {

/// With identifiers kept, every named value is printed behind its
/// identifier and an opening bracket, whatever its kind.
pub proof fn lemma_named_printed_behind_identifier(v: DuperValue, curr: nat, ind: nat)
    requires
        v.identifier is Some,
    ensures
        (v.identifier->0@ + "("@).is_prefix_of(pretty_text(v, false, curr, ind)),
{
    reveal_strlit("(");
    reveal_strlit("({})");
    reveal_strlit("({\n");
    reveal_strlit("([])");
    reveal_strlit("([\n");
    reveal_strlit("((,))");
    reveal_strlit("((");
    reveal_strlit("((\n");
    reveal_strlit("(\n");
    let p = v.identifier->0@ + "("@;
    let t = pretty_text(v, false, curr, ind);
    assert(t.subrange(0, p.len() as int) =~= p);
}

/// With identifiers kept, a named scalar is its unnamed text in brackets
/// behind its identifier: `identifier(text)` for integers, floats, booleans
/// and null, and for strings and bytes whose text fits on the identifier's
/// line.
pub proof fn lemma_named_scalar_wraps_unnamed(v: DuperValue, w: DuperValue, curr: nat, ind: nat)
    requires
        v.identifier is Some,
        w.identifier is None,
        w.inner == v.inner,
    ensures
        (v.inner is Integer || v.inner is Float || v.inner is Boolean || v.inner is Null)
            ==> pretty_text(v, false, curr, ind) == v.identifier->0@ + "("@ + pretty_text(
            w,
            false,
            curr,
            ind,
        ) + ")"@,
        ((v.inner is String || v.inner is Bytes) && !too_long(pretty_text(w, false, curr, ind), curr))
            ==> pretty_text(v, false, curr, ind) == v.identifier->0@ + "("@ + pretty_text(
            w,
            false,
            curr,
            ind,
        ) + ")"@,
{
}

/// Whether `w` is `v` with every identifier, at every depth, left out:
/// same kinds, keys, order and contents, and no identifier anywhere.
pub open spec fn stripped_of(w: DuperValue, v: DuperValue) -> bool
    decreases v,
{
    &&& w.identifier is None
    &&& match v.inner {
        DuperInner::Object(o) => {
            proof {
                lemma_children_decrease(v);
            }
            &&& w.inner is Object
            &&& stripped_entries(w.inner->Object_0@, o@)
        },
        DuperInner::Array(a) => {
            proof {
                lemma_children_decrease(v);
            }
            &&& w.inner is Array
            &&& stripped_items(w.inner->Array_0@, a@)
        },
        DuperInner::Tuple(t) => {
            proof {
                lemma_children_decrease(v);
            }
            &&& w.inner is Tuple
            &&& stripped_items(w.inner->Tuple_0@, t@)
        },
        _ => w.inner == v.inner,
    }
}

/// Whether each of `ws` is the corresponding value of `vs` stripped.
pub open spec fn stripped_items(ws: Seq<DuperValue>, vs: Seq<DuperValue>) -> bool
    decreases vs,
{
    &&& ws.len() == vs.len()
    &&& forall|i: int| 0 <= i < vs.len() ==> stripped_of(#[trigger] ws[i], vs[i])
}

/// Whether each of `ws` has the key of the corresponding entry of `vs` and
/// its value stripped.
pub open spec fn stripped_entries(ws: Seq<(DuperKey, DuperValue)>, vs: Seq<(DuperKey, DuperValue)>) -> bool
    decreases vs,
{
    &&& ws.len() == vs.len()
    &&& forall|i: int|
        0 <= i < vs.len() ==> (#[trigger] ws[i]).0@ == vs[i].0@ && stripped_of(ws[i].1, vs[i].1)
}

/// Printing with identifiers left out gives the text of the value with its
/// identifiers removed, printed as it is.
pub proof fn lemma_strip_prints_stripped(v: DuperValue, w: DuperValue, curr: nat, ind: nat)
    requires
        stripped_of(w, v),
    ensures
        pretty_text(v, true, curr, ind) == pretty_text(w, false, curr, ind),
    decreases v,
{
    lemma_children_decrease(v);
    match v.inner {
        DuperInner::Object(o) => {
            lemma_strip_entries(o@, w.inner->Object_0@, curr + ind, ind);
        },
        DuperInner::Array(a) => {
            lemma_strip_items(a@, w.inner->Array_0@, curr + ind, ind);
        },
        DuperInner::Tuple(t) => {
            if t@.len() == 1 {
                assert(decreases_to!(t@ => t@[0]));
                lemma_strip_prints_stripped(t@[0], w.inner->Tuple_0@[0], curr, ind);
            } else {
                lemma_strip_items(t@, w.inner->Tuple_0@, curr + ind, ind);
            }
        },
        _ => {},
    }
}

proof fn lemma_strip_items(vs: Seq<DuperValue>, ws: Seq<DuperValue>, level: nat, ind: nat)
    requires
        stripped_items(ws, vs),
    ensures
        pretty_items(vs, true, level, ind) == pretty_items(ws, false, level, ind),
    decreases vs,
{
    if vs.len() > 0 {
        assert(stripped_items(ws.drop_last(), vs.drop_last())) by {
            assert forall|i: int| 0 <= i < vs.drop_last().len() implies stripped_of(
                #[trigger] ws.drop_last()[i],
                vs.drop_last()[i],
            ) by {
                assert(stripped_of(ws[i], vs[i]));
            }
        }
        lemma_strip_items(vs.drop_last(), ws.drop_last(), level, ind);
        assert(stripped_of(ws[vs.len() - 1], vs[vs.len() - 1]));
        lemma_strip_prints_stripped(vs.last(), ws.last(), level, ind);
    }
}

proof fn lemma_strip_entries(
    vs: Seq<(DuperKey, DuperValue)>,
    ws: Seq<(DuperKey, DuperValue)>,
    level: nat,
    ind: nat,
)
    requires
        stripped_entries(ws, vs),
    ensures
        pretty_entries(vs, true, level, ind) == pretty_entries(ws, false, level, ind),
    decreases vs,
{
    if vs.len() > 0 {
        assert(stripped_entries(ws.drop_last(), vs.drop_last())) by {
            assert forall|i: int| 0 <= i < vs.drop_last().len() implies (
            #[trigger] ws.drop_last()[i]).0@ == vs.drop_last()[i].0@ && stripped_of(
                ws.drop_last()[i].1,
                vs.drop_last()[i].1,
            ) by {
                assert(ws[i].0@ == vs[i].0@ && stripped_of(ws[i].1, vs[i].1));
            }
        }
        lemma_strip_entries(vs.drop_last(), ws.drop_last(), level, ind);
        assert(ws[vs.len() - 1].0@ == vs[vs.len() - 1].0@ && stripped_of(
            ws[vs.len() - 1].1,
            vs[vs.len() - 1].1,
        ));
        assert(decreases_to!(vs => vs.last()));
        lemma_strip_prints_stripped(vs.last().1, ws.last().1, level, ind);
    }
}

} // verus!
