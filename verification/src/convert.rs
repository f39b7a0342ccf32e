//! Preparing Duper values for formats that lack some of Duper's kinds:
//! bytes become base64 strings, and temporal text loses its annotations.
use vstd::prelude::*;
use crate::ast::{
    lemma_children_decrease, DuperArray, DuperInner, DuperKey, DuperObject, DuperString,
    DuperTuple, DuperValue,
};
use crate::encoding::{base64_encode, base64_standard};
use crate::text::{chars_of, push_char};

verus! {

/// Whether every bytes value inside `v` is short enough for its base64
/// text to have a length that fits in `usize`.
pub open spec fn bytes_fit_base64(v: DuperValue) -> bool
    decreases v,
{
    match v.inner {
        DuperInner::Object(o) => {
            proof {
                lemma_children_decrease(v);
            }
            forall|i: int| 0 <= i < o@.len() ==> bytes_fit_base64(#[trigger] o@[i].1)
        },
        DuperInner::Array(a) => {
            proof {
                lemma_children_decrease(v);
            }
            forall|i: int| 0 <= i < a@.len() ==> bytes_fit_base64(#[trigger] a@[i])
        },
        DuperInner::Tuple(t) => {
            proof {
                lemma_children_decrease(v);
            }
            forall|i: int| 0 <= i < t@.len() ==> bytes_fit_base64(#[trigger] t@[i])
        },
        DuperInner::Bytes(b) => 4 * ((b@.len() + 2) / 3) <= usize::MAX,
        _ => true,
    }
}

/// Whether `out` is `v` with every bytes value replaced by the string of
/// its standard base64 text, keeping identifiers, keys and order.
pub open spec fn base64_form(out: DuperValue, v: DuperValue) -> bool
    decreases v,
{
    &&& out.identifier == v.identifier
    &&& match v.inner {
        DuperInner::Object(o) => {
            proof {
                lemma_children_decrease(v);
            }
            &&& out.inner is Object
            &&& out.inner->Object_0@.len() == o@.len()
            &&& forall|i: int|
                0 <= i < o@.len() ==> (#[trigger] out.inner->Object_0@[i]).0@ == o@[i].0@
                    && base64_form(out.inner->Object_0@[i].1, o@[i].1)
        },
        DuperInner::Array(a) => {
            proof {
                lemma_children_decrease(v);
            }
            &&& out.inner is Array
            &&& out.inner->Array_0@.len() == a@.len()
            &&& forall|i: int|
                0 <= i < a@.len() ==> base64_form(#[trigger] out.inner->Array_0@[i], a@[i])
        },
        DuperInner::Tuple(t) => {
            proof {
                lemma_children_decrease(v);
            }
            &&& out.inner is Tuple
            &&& out.inner->Tuple_0@.len() == t@.len()
            &&& forall|i: int|
                0 <= i < t@.len() ==> base64_form(#[trigger] out.inner->Tuple_0@[i], t@[i])
        },
        DuperInner::Bytes(b) => out.inner is String && out.inner->String_0@ == base64_standard(
            b@,
        ),
        _ => out.inner == v.inner,
    }
}

/// Replaces every bytes value inside `value` by the string of its standard
/// base64 text; everything else stays as it is.
pub fn encode_bytes(value: DuperValue) -> (out: DuperValue)
    requires
        bytes_fit_base64(value),
    ensures
        base64_form(out, value),
    decreases value,
{
    proof {
        lemma_children_decrease(value);
    }
    let ghost whole = value;
    let DuperValue { identifier, inner } = value;
    match inner {
        DuperInner::Object(o) => {
            let entries = encode_entries(o.into_inner(), Ghost(whole));
            DuperValue { identifier, inner: DuperInner::Object(DuperObject::from_entries(entries)) }
        },
        DuperInner::Array(a) => {
            let items = encode_items(a.into_inner(), Ghost(whole));
            DuperValue { identifier, inner: DuperInner::Array(DuperArray::from(items)) }
        },
        DuperInner::Tuple(t) => {
            let items = encode_items(t.into_inner(), Ghost(whole));
            DuperValue { identifier, inner: DuperInner::Tuple(DuperTuple::from(items)) }
        },
        DuperInner::Bytes(b) => {
            let text = base64_encode(b.as_slice());
            DuperValue { identifier, inner: DuperInner::String(DuperString::from(text)) }
        },
        other => DuperValue { identifier, inner: other },
    }
}

fn encode_items(input: Vec<DuperValue>, Ghost(parent): Ghost<DuperValue>) -> (out: Vec<DuperValue>)
    requires
        forall|i: int| 0 <= i < input@.len() ==> decreases_to!(parent => #[trigger] input@[i]),
        forall|i: int| 0 <= i < input@.len() ==> bytes_fit_base64(#[trigger] input@[i]),
    ensures
        out@.len() == input@.len(),
        forall|i: int| 0 <= i < input@.len() ==> base64_form(#[trigger] out@[i], input@[i]),
    decreases parent, 0nat,
{
    let mut items = input;
    let ghost all = input@;
    let mut out: Vec<DuperValue> = Vec::new();
    let n = items.len();
    let mut i: usize = 0;
    while i < n
        invariant
            all == input@,
            n == all.len(),
            i <= n,
            items@ == all.skip(i as int),
            forall|k: int| 0 <= k < all.len() ==> decreases_to!(parent => #[trigger] all[k]),
            forall|k: int| 0 <= k < all.len() ==> bytes_fit_base64(#[trigger] all[k]),
            out@.len() == i,
            forall|j: int| 0 <= j < i ==> base64_form(#[trigger] out@[j], all[j]),
        decreases n - i,
    {
        let item = items.remove(0);
        assert(all.skip(i as int + 1) == all.skip(i as int).remove(0));
        assert(item == all[i as int]);
        out.push(encode_bytes(item));
        i += 1;
    }
    out
}

fn encode_entries(input: Vec<(DuperKey, DuperValue)>, Ghost(parent): Ghost<DuperValue>) -> (out: Vec<
    (DuperKey, DuperValue),
>)
    requires
        parent.inner is Object,
        parent.inner->Object_0@ == input@,
        decreases_to!(parent => input@),
        bytes_fit_base64(parent),
    ensures
        out@.len() == input@.len(),
        forall|i: int|
            0 <= i < input@.len() ==> (#[trigger] out@[i]).0@ == input@[i].0@ && base64_form(
                out@[i].1,
                input@[i].1,
            ),
    decreases parent, 0nat,
{
    let mut entries = input;
    let ghost all = input@;
    let mut out: Vec<(DuperKey, DuperValue)> = Vec::new();
    let n = entries.len();
    let mut i: usize = 0;
    while i < n
        invariant
            all == input@,
            parent.inner is Object,
            parent.inner->Object_0@ == all,
            decreases_to!(parent => all),
            bytes_fit_base64(parent),
            n == all.len(),
            i <= n,
            entries@ == all.skip(i as int),
            out@.len() == i,
            forall|j: int|
                0 <= j < i ==> (#[trigger] out@[j]).0@ == all[j].0@ && base64_form(
                    out@[j].1,
                    all[j].1,
                ),
        decreases n - i,
    {
        let (k, v) = entries.remove(0);
        assert(all.skip(i as int + 1) == all.skip(i as int).remove(0));
        assert(all[i as int] == (k, v));
        proof {
            assert(decreases_to!(all => all[i as int]));
            assert(decreases_to!(all[i as int] => all[i as int].1));
            assert(bytes_fit_base64(all[i as int].1));
        }
        let w = encode_bytes(v);
        out.push((k, w));
        i += 1;
    }
    out
}

/// The Unicode `White_Space` characters, which `str::trim` removes.
pub open spec fn is_white_space(c: char) -> bool {
    let n = c as int;
    ||| 9 <= n <= 13
    ||| n == 32
    ||| n == 0x85
    ||| n == 0xA0
    ||| n == 0x1680
    ||| 0x2000 <= n <= 0x200A
    ||| n == 0x2028
    ||| n == 0x2029
    ||| n == 0x202F
    ||| n == 0x205F
    ||| n == 0x3000
}

fn white_space(c: char) -> (r: bool)
    ensures
        r == is_white_space(c),
{
    let n = c as u32;
    (9 <= n && n <= 13) || n == 32 || n == 0x85 || n == 0xA0 || n == 0x1680 || (0x2000 <= n && n
        <= 0x200A) || n == 0x2028 || n == 0x2029 || n == 0x202F || n == 0x205F || n == 0x3000
}

/// The characters before the first `[`, or all of them when there is none.
pub open spec fn before_bracket(s: Seq<char>) -> Seq<char>
    decreases s.len(),
{
    if s.len() == 0 {
        s
    } else if s[0] == '[' {
        Seq::empty()
    } else {
        seq![s[0]] + before_bracket(s.drop_first())
    }
}

/// Whether `t` is `s` without its leading and trailing white space.
pub open spec fn is_trim_of(t: Seq<char>, s: Seq<char>) -> bool {
    exists|a: int, b: int|
        0 <= a <= b <= s.len() && t == s.subrange(a, b) && (forall|j: int|
            0 <= j < a ==> is_white_space(#[trigger] s[j])) && (forall|j: int|
            b <= j < s.len() ==> is_white_space(#[trigger] s[j])) && (a < b ==> !is_white_space(
            s[a],
        ) && !is_white_space(s[b - 1]))
}

/// The date and time of a temporal text: what comes before its first `[`
/// annotation, without surrounding white space.
pub fn clean_temporal(temporal: &str) -> (r: String)
    ensures
        is_trim_of(r@, before_bracket(temporal@)),
{
    let cs = chars_of(temporal);
    let mut k: usize = 0;
    assert(cs@.skip(0) == cs@);
    assert(cs@.take(0) + before_bracket(cs@) == before_bracket(cs@));
    while k < cs.len() && cs[k] != '['
        invariant
            cs@ == temporal@,
            k <= cs.len(),
            before_bracket(cs@) == cs@.take(k as int) + before_bracket(cs@.skip(k as int)),
        decreases cs.len() - k,
    {
        let ghost rest = cs@.skip(k as int);
        assert(rest.drop_first() == cs@.skip(k as int + 1));
        assert(cs@.take(k as int + 1) == cs@.take(k as int) + seq![rest[0]]);
        k += 1;
    }
    let ghost rest = cs@.skip(k as int);
    assert(before_bracket(rest) == Seq::<char>::empty());
    assert(cs@.take(k as int) + Seq::<char>::empty() == cs@.take(k as int));
    let ghost p = cs@.take(k as int);
    let mut a: usize = 0;
    while a < k && white_space(cs[a])
        invariant
            p == cs@.take(k as int),
            k <= cs.len(),
            a <= k,
            forall|j: int| 0 <= j < a ==> is_white_space(#[trigger] p[j]),
        decreases k - a,
    {
        a += 1;
    }
    let mut b: usize = k;
    while b > a && white_space(cs[b - 1])
        invariant
            p == cs@.take(k as int),
            k <= cs.len(),
            a <= b <= k,
            forall|j: int| b <= j < k ==> is_white_space(#[trigger] p[j]),
        decreases b - a,
    {
        b -= 1;
    }
    let mut out = String::new();
    let mut i: usize = a;
    while i < b
        invariant
            p == cs@.take(k as int),
            k <= cs.len(),
            a <= i <= b <= k,
            out@ == p.subrange(a as int, i as int),
        decreases b - i,
    {
        push_char(&mut out, cs[i]);
        i += 1;
        assert(p.subrange(a as int, i as int) == p.subrange(a as int, i - 1).push(p[i - 1]));
    }
    assert(is_trim_of(out@, p));
    out
}

} // verus!
