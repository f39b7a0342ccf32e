//! Equality of Duper values: identifiers are ignored, object entries are
//! compared by key regardless of order, and floats compare as IEEE 754
//! doubles.
use vstd::prelude::*;
use crate::ast::{lemma_children_decrease, DuperFloat, DuperInner, DuperKey, DuperObject, DuperValue};

verus! {

/// Whether a bit pattern is a NaN.
pub open spec fn is_nan_bits(b: u64) -> bool {
    (b >> 52u64) & 0x7ffu64 == 0x7ffu64 && b & 0x000f_ffff_ffff_ffffu64 != 0
}

/// Whether a bit pattern is positive or negative zero.
pub open spec fn is_zero_bits(b: u64) -> bool {
    b & 0x7fff_ffff_ffff_ffffu64 == 0
}

/// IEEE 754 equality of two doubles given by their bit patterns: no NaN
/// equals anything, the two zeros are equal, and otherwise equal doubles
/// have equal bits.
pub open spec fn float_bits_eq(a: u64, b: u64) -> bool {
    !is_nan_bits(a) && !is_nan_bits(b) && (a == b || (is_zero_bits(a) && is_zero_bits(b)))
}

/// The value of the last entry with key `k`, if any.
pub open spec fn lookup_last(s: Seq<(DuperKey, DuperValue)>, k: Seq<char>) -> Option<DuperValue>
    decreases s.len(),
{
    if s.len() == 0 {
        None
    } else if s.last().0@ == k {
        Some(s.last().1)
    } else {
        lookup_last(s.drop_last(), k)
    }
}

/// Equality of Duper values.
pub open spec fn value_eq(a: DuperValue, b: DuperValue) -> bool
    decreases a,
{
    match (a.inner, b.inner) {
        (DuperInner::Object(x), DuperInner::Object(y)) => {
            proof {
                lemma_children_decrease(a);
            }
            x@.len() == y@.len() && forall|i: int|
                0 <= i < x@.len() ==> match lookup_last(y@, (#[trigger] x@[i]).0@) {
                    Some(w) => value_eq(x@[i].1, w),
                    None => false,
                }
        },
        (DuperInner::Array(x), DuperInner::Array(y)) => {
            proof {
                lemma_children_decrease(a);
            }
            x@.len() == y@.len() && forall|i: int|
                0 <= i < x@.len() ==> value_eq(#[trigger] x@[i], y@[i])
        },
        (DuperInner::Tuple(x), DuperInner::Tuple(y)) => {
            proof {
                lemma_children_decrease(a);
            }
            x@.len() == y@.len() && forall|i: int|
                0 <= i < x@.len() ==> value_eq(#[trigger] x@[i], y@[i])
        },
        (DuperInner::String(x), DuperInner::String(y)) => x@ == y@,
        (DuperInner::Bytes(x), DuperInner::Bytes(y)) => x@ == y@,
        (DuperInner::Integer(x), DuperInner::Integer(y)) => x == y,
        (DuperInner::Float(x), DuperInner::Float(y)) => float_bits_eq(x.spec_bits(), y.spec_bits()),
        (DuperInner::Boolean(x), DuperInner::Boolean(y)) => x == y,
        (DuperInner::Null, DuperInner::Null) => true,
        _ => false,
    }
}

/// Equality of scalars is equality of what they hold, whatever their
/// identifiers: two booleans are equal exactly when both are true or both
/// are false, two integers exactly when they are the same number, two
/// strings or two byte strings exactly when they hold the same text or
/// bytes, and any two nulls are equal.
pub proof fn lemma_scalars_equal_by_contents(a: DuperValue, b: DuperValue)
    ensures
        (a.inner is Boolean && b.inner is Boolean)
            ==> (value_eq(a, b) <==> a.inner->Boolean_0 == b.inner->Boolean_0),
        (a.inner is Integer && b.inner is Integer)
            ==> (value_eq(a, b) <==> a.inner->Integer_0 == b.inner->Integer_0),
        (a.inner is String && b.inner is String)
            ==> (value_eq(a, b) <==> a.inner->String_0@ == b.inner->String_0@),
        (a.inner is Bytes && b.inner is Bytes)
            ==> (value_eq(a, b) <==> a.inner->Bytes_0@ == b.inner->Bytes_0@),
        (a.inner is Null && b.inner is Null) ==> value_eq(a, b),
{
}

/// Floats compare as doubles: a NaN equals nothing, not even itself, the
/// two zeros equal each other, and two other floats are equal exactly when
/// they are the same double.
pub proof fn lemma_floats_equal_as_doubles(a: DuperValue, b: DuperValue)
    requires
        a.inner is Float,
        b.inner is Float,
    ensures
        is_nan_bits(a.inner->Float_0.spec_bits()) ==> !value_eq(a, b),
        is_nan_bits(b.inner->Float_0.spec_bits()) ==> !value_eq(a, b),
        is_zero_bits(a.inner->Float_0.spec_bits()) && is_zero_bits(b.inner->Float_0.spec_bits())
            ==> value_eq(a, b),
        !is_nan_bits(a.inner->Float_0.spec_bits()) && !is_zero_bits(a.inner->Float_0.spec_bits())
            ==> (value_eq(a, b) <==> a.inner->Float_0.spec_bits() == b.inner->Float_0.spec_bits()),
{
    let x = a.inner->Float_0.spec_bits();
    let y = b.inner->Float_0.spec_bits();
    assert(x & 0x7fff_ffff_ffff_ffffu64 == 0 ==> !((x >> 52u64) & 0x7ffu64 == 0x7ffu64)) by (bit_vector);
    assert(y & 0x7fff_ffff_ffff_ffffu64 == 0 ==> !((y >> 52u64) & 0x7ffu64 == 0x7ffu64)) by (bit_vector);
}

/// Values of two different kinds are never equal: a boolean equals only a
/// boolean, an integer only an integer, and so on for every kind.
pub proof fn lemma_different_kinds_unequal(a: DuperValue, b: DuperValue)
    requires
        value_eq(a, b),
    ensures
        a.inner is Boolean <==> b.inner is Boolean,
        a.inner is Integer <==> b.inner is Integer,
        a.inner is Float <==> b.inner is Float,
        a.inner is String <==> b.inner is String,
        a.inner is Bytes <==> b.inner is Bytes,
        a.inner is Null <==> b.inner is Null,
        a.inner is Object <==> b.inner is Object,
        a.inner is Array <==> b.inner is Array,
        a.inner is Tuple <==> b.inner is Tuple,
{
}

fn float_eq(a: &DuperFloat, b: &DuperFloat) -> (r: bool)
    ensures
        r == float_bits_eq(a.spec_bits(), b.spec_bits()),
{
    let x = a.to_bits();
    let y = b.to_bits();
    let x_nan = (x >> 52u64) & 0x7ffu64 == 0x7ffu64 && x & 0x000f_ffff_ffff_ffffu64 != 0;
    let y_nan = (y >> 52u64) & 0x7ffu64 == 0x7ffu64 && y & 0x000f_ffff_ffff_ffffu64 != 0;
    let x_zero = x & 0x7fff_ffff_ffff_ffffu64 == 0;
    let y_zero = y & 0x7fff_ffff_ffff_ffffu64 == 0;
    !x_nan && !y_nan && (x == y || (x_zero && y_zero))
}

fn bytes_eq(a: &[u8], b: &[u8]) -> (r: bool)
    ensures
        r == (a@ == b@),
{
    if a.len() != b.len() {
        return false;
    }
    let mut i: usize = 0;
    while i < a.len()
        invariant
            a.len() == b.len(),
            i <= a.len(),
            forall|j: int| 0 <= j < i ==> a@[j] == b@[j],
        decreases a.len() - i,
    {
        if a[i] != b[i] {
            return false;
        }
        i += 1;
    }
    assert(a@ =~= b@);
    true
}

/// The position of the last entry with key `k`, if any.
fn find_last(entries: &Vec<(DuperKey, DuperValue)>, k: &DuperKey) -> (r: Option<usize>)
    ensures
        match lookup_last(entries@, k@) {
            Some(w) => r matches Some(i) && i < entries@.len() && entries@[i as int].1 == w,
            None => r is None,
        },
{
    let mut n = entries.len();
    proof {
        lemma_lookup_take_all(entries@, k@);
    }
    while n > 0
        invariant
            n <= entries@.len(),
            lookup_last(entries@, k@) == lookup_last(entries@.take(n as int), k@),
        decreases n,
    {
        let ghost pre = entries@.take(n as int);
        assert(pre.drop_last() == entries@.take(n - 1));
        if entries[n - 1].0.key_eq(k) {
            assert(pre.last() == entries@[n - 1]);
            return Some(n - 1);
        }
        n -= 1;
    }
    None
}

proof fn lemma_lookup_take_all(s: Seq<(DuperKey, DuperValue)>, k: Seq<char>)
    ensures
        lookup_last(s, k) == lookup_last(s.take(s.len() as int), k),
{
    assert(s.take(s.len() as int) == s);
}

impl DuperValue {
    /// Whether two values are equal: identifiers are ignored, objects are
    /// equal when they have as many entries and each entry's key leads, in
    /// the other object, to an equal value (the last such entry counts), and
    /// floats compare as doubles.
    pub fn eq(&self, other: &DuperValue) -> (r: bool)
        ensures
            r == value_eq(*self, *other),
        decreases *self,
    {
        proof {
            lemma_children_decrease(*self);
        }
        match (&self.inner, &other.inner) {
            (DuperInner::Object(x), DuperInner::Object(y)) => object_eq(x, y, Ghost(*self), Ghost(*other)),
            (DuperInner::Array(x), DuperInner::Array(y)) => items_eq(x.values(), y.values(), Ghost(*self)),
            (DuperInner::Tuple(x), DuperInner::Tuple(y)) => items_eq(x.values(), y.values(), Ghost(*self)),
            (DuperInner::String(x), DuperInner::String(y)) => crate::text::str_eq(x.as_str(), y.as_str()),
            (DuperInner::Bytes(x), DuperInner::Bytes(y)) => bytes_eq(x.as_slice(), y.as_slice()),
            (DuperInner::Integer(x), DuperInner::Integer(y)) => *x == *y,
            (DuperInner::Float(x), DuperInner::Float(y)) => float_eq(x, y),
            (DuperInner::Boolean(x), DuperInner::Boolean(y)) => *x == *y,
            (DuperInner::Null, DuperInner::Null) => true,
            _ => false,
        }
    }
}

fn items_eq(xs: &Vec<DuperValue>, ys: &Vec<DuperValue>, Ghost(parent): Ghost<DuperValue>) -> (r: bool)
    requires
        forall|i: int| 0 <= i < xs@.len() ==> decreases_to!(parent => #[trigger] xs@[i]),
    ensures
        r == (xs@.len() == ys@.len() && forall|i: int|
            0 <= i < xs@.len() ==> value_eq(#[trigger] xs@[i], ys@[i])),
    decreases parent, 0nat,
{
    if xs.len() != ys.len() {
        return false;
    }
    let mut i: usize = 0;
    while i < xs.len()
        invariant
            xs.len() == ys.len(),
            i <= xs.len(),
            forall|k: int| 0 <= k < xs@.len() ==> decreases_to!(parent => #[trigger] xs@[k]),
            forall|j: int| 0 <= j < i ==> value_eq(#[trigger] xs@[j], ys@[j]),
        decreases xs.len() - i,
    {
        if !xs[i].eq(&ys[i]) {
            return false;
        }
        i += 1;
    }
    true
}

fn object_eq(x: &DuperObject, y: &DuperObject, Ghost(a): Ghost<DuperValue>, Ghost(b): Ghost<DuperValue>) -> (r: bool)
    requires
        a.inner == DuperInner::Object(*x),
        b.inner == DuperInner::Object(*y),
        decreases_to!(a => x@),
    ensures
        r == value_eq(a, b),
    decreases a, 0nat,
{
    let xs = x.entries();
    let ys = y.entries();
    if xs.len() != ys.len() {
        return false;
    }
    let mut i: usize = 0;
    while i < xs.len()
        invariant
            xs@ == x@,
            ys@ == y@,
            xs.len() == ys.len(),
            i <= xs.len(),
            decreases_to!(a => x@),
            a.inner == DuperInner::Object(*x),
            b.inner == DuperInner::Object(*y),
            forall|j: int|
                0 <= j < i ==> match lookup_last(ys@, (#[trigger] xs@[j]).0@) {
                    Some(w) => value_eq(xs@[j].1, w),
                    None => false,
                },
        decreases xs.len() - i,
    {
        match find_last(ys, &xs[i].0) {
            Some(p) => {
                proof {
                    assert(decreases_to!(xs@ => xs@[i as int]));
                    assert(decreases_to!(xs@[i as int] => xs@[i as int].1));
                }
                if !xs[i].1.eq(&ys[p].1) {
                    proof {
                        assert(!(match lookup_last(y@, x@[i as int].0@) {
                            Some(w) => value_eq(x@[i as int].1, w),
                            None => false,
                        }));
                    }
                    return false;
                }
            },
            None => {
                proof {
                    assert(!(match lookup_last(y@, x@[i as int].0@) {
                        Some(w) => value_eq(x@[i as int].1, w),
                        None => false,
                    }));
                }
                return false;
            },
        }
        i += 1;
    }
    true
}

} // verus!
