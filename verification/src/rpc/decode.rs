//! Reading RPC messages out of Duper values.
//!
//! A message is a Duper object whose entries are read in order; each reader
//! follows the protocol's rules on duplicate, unknown and missing fields.
use vstd::prelude::*;
use crate::ast::{DuperInner, DuperKey, DuperTuple, DuperValue};
use crate::rpc::request::{is_params_tuple, Request, RequestCall};
use crate::rpc::response::{Response, ResponseError, ResponseResult, ResponseSuccess};
use crate::rpc::{Error, RequestId};
use crate::text::str_eq;

verus! {

/// Why a message could not be read.
#[derive(Debug)]
pub enum DecodeError {
    /// A value of the wrong kind.
    InvalidType,
    /// A field given twice.
    DuplicateField(&'static str),
    /// A field the message does not have.
    UnknownField(String),
    /// A field the message needs.
    MissingField(&'static str),
    /// A value outside the allowed ones.
    InvalidValue(String),
    /// Any other reason.
    Custom(&'static str),
}

/// A reading failure, by the texts it carries.
pub enum Failure {
    InvalidType,
    DuplicateField(Seq<char>),
    UnknownField(Seq<char>),
    MissingField(Seq<char>),
    InvalidValue(Seq<char>),
    Custom(Seq<char>),
}

/// The failure that an error stands for.
pub open spec fn failure_of(e: DecodeError) -> Failure {
    match e {
        DecodeError::InvalidType => Failure::InvalidType,
        DecodeError::DuplicateField(f) => Failure::DuplicateField(f@),
        DecodeError::UnknownField(f) => Failure::UnknownField(f@),
        DecodeError::MissingField(f) => Failure::MissingField(f@),
        DecodeError::InvalidValue(f) => Failure::InvalidValue(f@),
        DecodeError::Custom(f) => Failure::Custom(f@),
    }
}

/// The text of a string value.
pub open spec fn text_of(v: DuperValue) -> Seq<char> {
    v.inner->String_0@
}

/// Whether a value can be read as a request ID (a string or an integer).
pub open spec fn is_id_value(v: DuperValue) -> bool {
    v.inner is String || v.inner is Integer
}

/// Whether `id` is the request ID read from the value `v`: the same string
/// or integer, without identifier.
pub open spec fn id_read_from(v: DuperValue, id: RequestId) -> bool {
    match v.inner {
        DuperInner::String(s) => id.is_string(None, s@),
        DuperInner::Integer(n) => id == RequestId::Integer { identifier: None, inner: n },
        _ => false,
    }
}

/// Whether an optional ID was read from an optional raw value.
pub open spec fn opt_id_read_from(raw: Option<DuperValue>, id: Option<RequestId>) -> bool {
    match raw {
        None => id is None,
        Some(v) => id matches Some(i) && id_read_from(v, i),
    }
}

/// Reads a request ID out of a string or integer value.
pub fn read_id(v: DuperValue) -> (r: Result<RequestId, DecodeError>)
    ensures
        is_id_value(v) ==> (r matches Ok(id) && id_read_from(v, id)),
        !is_id_value(v) ==> r matches Err(DecodeError::InvalidType),
{
    match v.inner {
        DuperInner::String(s) => Ok(RequestId::String { identifier: None, inner: s.into_inner() }),
        DuperInner::Integer(n) => Ok(RequestId::Integer { identifier: None, inner: n }),
        _ => Err(DecodeError::InvalidType),
    }
}

fn string_value_is(v: &DuperValue, lit: &str) -> (r: bool)
    requires
        v.inner is String,
    ensures
        r == (text_of(*v) == lit@),
{
    match &v.inner {
        DuperInner::String(s) => str_eq(s.as_str(), lit),
        _ => false,
    }
}

fn is_string_value(v: &DuperValue) -> (r: bool)
    ensures
        r == v.inner is String,
{
    match &v.inner {
        DuperInner::String(_) => true,
        _ => false,
    }
}

fn key_is(k: &DuperKey, lit: &str) -> (r: bool)
    ensures
        r == (k@ == lit@),
{
    str_eq(k.as_str(), lit)
}

fn entries_of(v: DuperValue) -> (r: Option<Vec<(DuperKey, DuperValue)>>)
    ensures
        v.inner is Object ==> (r matches Some(e) && e@ == v.inner->Object_0@),
        !(v.inner is Object) ==> r is None,
{
    match v.inner {
        DuperInner::Object(o) => Some(o.into_inner()),
        _ => None,
    }
}

// ---------------------------------------------------------------------------
// Errors
// ---------------------------------------------------------------------------

/// The `type` and `value` fields of an error after the first `n` entries.
pub open spec fn error_fields(s: Seq<(DuperKey, DuperValue)>, n: int) -> Result<
    (Option<DuperValue>, Option<DuperValue>),
    Failure,
>
    decreases n,
{
    if n <= 0 {
        Ok((None, None))
    } else {
        match error_fields(s, n - 1) {
            Err(f) => Err(f),
            Ok((typ, value)) => {
                let (k, v) = s[n - 1];
                if k@ == "type"@ {
                    if typ is Some {
                        Err(Failure::DuplicateField("type"@))
                    } else if v.inner is String {
                        Ok((Some(v), value))
                    } else {
                        Err(Failure::InvalidType)
                    }
                } else if k@ == "value"@ {
                    if value is Some {
                        Err(Failure::DuplicateField("value"@))
                    } else {
                        Ok((typ, Some(v)))
                    }
                } else {
                    Err(Failure::UnknownField(k@))
                }
            },
        }
    }
}

/// What the plain error named `name` is, if there is one by that name.
pub open spec fn plain_error(name: Seq<char>) -> Option<Error> {
    if name == "ParseError"@ {
        Some(Error::ParseError)
    } else if name == "InvalidRequest"@ {
        Some(Error::InvalidRequest)
    } else if name == "MethodNotFound"@ {
        Some(Error::MethodNotFound)
    } else if name == "InvalidParams"@ {
        Some(Error::InvalidParams)
    } else if name == "InternalError"@ {
        Some(Error::InternalError)
    } else {
        None
    }
}

/// The error that the entries of an error object describe: a plain error
/// named by `type` and without `value`, or a `Custom` error with its `value`.
pub open spec fn error_read(s: Seq<(DuperKey, DuperValue)>) -> Result<Error, Failure> {
    match error_fields(s, s.len() as int) {
        Err(f) => Err(f),
        Ok((typ, value)) => match typ {
            None => Err(Failure::MissingField("type"@)),
            Some(t) => {
                let name = text_of(t);
                match plain_error(name) {
                    Some(e) => if value is Some {
                        Err(Failure::Custom(name + " cannot have value"@))
                    } else {
                        Ok(e)
                    },
                    None => if name == "Custom"@ {
                        match value {
                            None => Err(Failure::MissingField("value"@)),
                            Some(v) => Ok(Error::Custom(v)),
                        }
                    } else {
                        Err(Failure::UnknownField(name))
                    },
                }
            },
        },
    }
}

/// The error a value describes: it must be an object.
pub open spec fn error_value_read(v: DuperValue) -> Result<Error, Failure> {
    if v.inner is Object {
        error_read(v.inner->Object_0@)
    } else {
        Err(Failure::InvalidType)
    }
}

/// Whether `r` is the outcome `expected` of reading.
pub open spec fn read_as<T>(r: Result<T, DecodeError>, expected: Result<T, Failure>) -> bool {
    match expected {
        Ok(x) => r == Ok::<T, DecodeError>(x),
        Err(f) => r matches Err(e) && failure_of(e) == f,
    }
}

fn plain_error_named(t: &DuperValue) -> (r: Option<Error>)
    requires
        t.inner is String,
    ensures
        r == plain_error(text_of(*t)),
{
    if string_value_is(t, "ParseError") {
        Some(Error::ParseError)
    } else if string_value_is(t, "InvalidRequest") {
        Some(Error::InvalidRequest)
    } else if string_value_is(t, "MethodNotFound") {
        Some(Error::MethodNotFound)
    } else if string_value_is(t, "InvalidParams") {
        Some(Error::InvalidParams)
    } else if string_value_is(t, "InternalError") {
        Some(Error::InternalError)
    } else {
        None
    }
}

/// Reads an RPC error out of a value.
pub fn read_error(v: DuperValue) -> (r: Result<Error, DecodeError>)
    ensures
        read_as(r, error_value_read(v)),
{
    let ghost whole = v;
    let mut entries = match entries_of(v) {
        Some(e) => e,
        None => return Err(DecodeError::InvalidType),
    };
    let ghost all = entries@;
    let mut typ: Option<DuperValue> = None;
    let mut value: Option<DuperValue> = None;
    let n = entries.len();
    let mut i: usize = 0;
    while i < n
        invariant
            whole == v,
            whole.inner is Object,
            all == whole.inner->Object_0@,
            n == all.len(),
            i <= n,
            entries@ == all.skip(i as int),
            error_fields(all, i as int) == Ok::<
                (Option<DuperValue>, Option<DuperValue>),
                Failure,
            >((typ, value)),
            typ matches Some(t) ==> t.inner is String,
        decreases n - i,
    {
        let (k, val) = entries.remove(0);
        assert(all.skip(i as int + 1) == all.skip(i as int).remove(0));
        assert(all[i as int] == (k, val));
        proof {
            reveal_strlit("type");
            reveal_strlit("value");
        }
        if key_is(&k, "type") {
            if typ.is_some() {
                proof {
                    assert(error_fields(all, i as int + 1) == Err::<
                        (Option<DuperValue>, Option<DuperValue>),
                        Failure,
                    >(Failure::DuplicateField("type"@)));
                    lemma_error_fields_sticks(all, i as int + 1);
                }
                return Err(DecodeError::DuplicateField("type"));
            }
            if !is_string_value(&val) {
                proof {
                    assert(error_fields(all, i as int + 1) == Err::<
                        (Option<DuperValue>, Option<DuperValue>),
                        Failure,
                    >(Failure::InvalidType));
                    lemma_error_fields_sticks(all, i as int + 1);
                }
                return Err(DecodeError::InvalidType);
            }
            typ = Some(val);
        } else if key_is(&k, "value") {
            if value.is_some() {
                proof {
                    assert(error_fields(all, i as int + 1) == Err::<
                        (Option<DuperValue>, Option<DuperValue>),
                        Failure,
                    >(Failure::DuplicateField("value"@)));
                    lemma_error_fields_sticks(all, i as int + 1);
                }
                return Err(DecodeError::DuplicateField("value"));
            }
            value = Some(val);
        } else {
            proof {
                assert(error_fields(all, i as int + 1) == Err::<
                    (Option<DuperValue>, Option<DuperValue>),
                    Failure,
                >(Failure::UnknownField(k@)));
                lemma_error_fields_sticks(all, i as int + 1);
            }
            return Err(DecodeError::UnknownField(k.into_inner()));
        }
        i += 1;
    }
    match typ {
        None => Err(DecodeError::MissingField("type")),
        Some(t) => {
            match plain_error_named(&t) {
                Some(e) => {
                    if value.is_some() {
                        Err(DecodeError::Custom(cannot_have_value(&e)))
                    } else {
                        Ok(e)
                    }
                },
                None => {
                    if string_value_is(&t, "Custom") {
                        match value {
                            None => Err(DecodeError::MissingField("value")),
                            Some(x) => Ok(Error::Custom(x)),
                        }
                    } else {
                        match t.inner {
                            DuperInner::String(s) => Err(DecodeError::UnknownField(s.into_inner())),
                            _ => Err(DecodeError::InvalidType),
                        }
                    }
                },
            }
        },
    }
}

/// The complaint about a plain error that carries a value.
fn cannot_have_value(e: &Error) -> (m: &'static str)
    ensures
        plain_error("ParseError"@) == Some(*e) ==> m@ == "ParseError"@ + " cannot have value"@,
        plain_error("InvalidRequest"@) == Some(*e) ==> m@ == "InvalidRequest"@
            + " cannot have value"@,
        plain_error("MethodNotFound"@) == Some(*e) ==> m@ == "MethodNotFound"@
            + " cannot have value"@,
        plain_error("InvalidParams"@) == Some(*e) ==> m@ == "InvalidParams"@
            + " cannot have value"@,
        plain_error("InternalError"@) == Some(*e) ==> m@ == "InternalError"@
            + " cannot have value"@,
{
    proof {
        reveal_strlit("ParseError");
        reveal_strlit("InvalidRequest");
        reveal_strlit("MethodNotFound");
        reveal_strlit("InvalidParams");
        reveal_strlit("InternalError");
        reveal_strlit(" cannot have value");
        reveal_strlit("ParseError cannot have value");
        reveal_strlit("InvalidRequest cannot have value");
        reveal_strlit("MethodNotFound cannot have value");
        reveal_strlit("InvalidParams cannot have value");
        reveal_strlit("InternalError cannot have value");
    }
    match e {
        Error::ParseError => "ParseError cannot have value",
        Error::InvalidRequest => "InvalidRequest cannot have value",
        Error::MethodNotFound => "MethodNotFound cannot have value",
        Error::InvalidParams => "InvalidParams cannot have value",
        _ => "InternalError cannot have value",
    }
}

/// Once reading the fields fails, it fails the same way on every longer
/// prefix.
proof fn lemma_error_fields_sticks(s: Seq<(DuperKey, DuperValue)>, k: int)
    requires
        0 <= k <= s.len(),
        error_fields(s, k) is Err,
    ensures
        error_fields(s, s.len() as int) == error_fields(s, k),
    decreases s.len() - k,
{
    if k < s.len() {
        lemma_error_fields_sticks(s, k + 1);
    }
}

} // verus!

verus! {

// ---------------------------------------------------------------------------
// Request calls
// ---------------------------------------------------------------------------

/// The fields of a request call read so far.
pub struct CallFields {
    /// A `duper_rpc` entry of version `0.1` was accepted.
    pub version: bool,
    /// The raw `id` entry.
    pub id: Option<DuperValue>,
    /// The raw `method` entry.
    pub method: Option<DuperValue>,
    /// The raw `params` entry.
    pub params: Option<DuperValue>,
    /// A repeated or unknown field, or an unknown version, was seen.
    pub invalid: bool,
}

/// The fields of a call after the first `n` entries; reading fails only
/// when a field's value has the wrong kind.
pub open spec fn call_fields(s: Seq<(DuperKey, DuperValue)>, n: int) -> Result<CallFields, Failure>
    decreases n,
{
    if n <= 0 {
        Ok(CallFields { version: false, id: None, method: None, params: None, invalid: false })
    } else {
        match call_fields(s, n - 1) {
            Err(f) => Err(f),
            Ok(st) => {
                let (k, v) = s[n - 1];
                if k@ == "duper_rpc"@ {
                    if st.version {
                        Ok(CallFields { invalid: true, ..st })
                    } else if !(v.inner is String) {
                        Err(Failure::InvalidType)
                    } else if text_of(v) == "0.1"@ {
                        Ok(CallFields { version: true, ..st })
                    } else {
                        Ok(CallFields { invalid: true, ..st })
                    }
                } else if k@ == "id"@ {
                    if st.id is Some {
                        Ok(CallFields { invalid: true, ..st })
                    } else if !is_id_value(v) {
                        Err(Failure::InvalidType)
                    } else {
                        Ok(CallFields { id: Some(v), ..st })
                    }
                } else if k@ == "method"@ {
                    if st.method is Some {
                        Ok(CallFields { invalid: true, ..st })
                    } else if !(v.inner is String) {
                        Err(Failure::InvalidType)
                    } else {
                        Ok(CallFields { method: Some(v), ..st })
                    }
                } else if k@ == "params"@ {
                    if st.params is Some {
                        Ok(CallFields { invalid: true, ..st })
                    } else {
                        Ok(CallFields { params: Some(v), ..st })
                    }
                } else {
                    Ok(CallFields { invalid: true, ..st })
                }
            },
        }
    }
}

/// Whether `c` is the call that the fields describe: invalid (with the ID
/// read, if any) unless exactly one accepted version and a method were given
/// and nothing was repeated or unknown; a valid call without `params` gets an
/// empty tuple.
pub open spec fn call_from_fields(c: RequestCall, st: CallFields) -> bool {
    if st.invalid || !st.version || st.method is None {
        c matches RequestCall::Invalid { id, error } && opt_id_read_from(st.id, id)
            && error is InvalidRequest
    } else {
        c matches RequestCall::Valid { id, method, params } && opt_id_read_from(st.id, id)
            && method@ == text_of(st.method->0) && match st.params {
            Some(p) => params == p,
            None => is_params_tuple(params, Seq::empty()),
        }
    }
}

/// Whether `r` is what reading the call entries `s` gives.
pub open spec fn call_read(r: Result<RequestCall, DecodeError>, s: Seq<(DuperKey, DuperValue)>) -> bool {
    match call_fields(s, s.len() as int) {
        Err(f) => r matches Err(e) && failure_of(e) == f,
        Ok(st) => r matches Ok(c) && call_from_fields(c, st),
    }
}

proof fn lemma_call_fields_sticks(s: Seq<(DuperKey, DuperValue)>, k: int)
    requires
        0 <= k <= s.len(),
        call_fields(s, k) is Err,
    ensures
        call_fields(s, s.len() as int) == call_fields(s, k),
    decreases s.len() - k,
{
    if k < s.len() {
        lemma_call_fields_sticks(s, k + 1);
    }
}

fn is_id_kind(v: &DuperValue) -> (r: bool)
    ensures
        r == is_id_value(*v),
{
    match &v.inner {
        DuperInner::String(_) => true,
        DuperInner::Integer(_) => true,
        _ => false,
    }
}

fn empty_params() -> (p: DuperValue)
    ensures
        is_params_tuple(p, Seq::empty()),
{
    DuperValue { identifier: None, inner: DuperInner::Tuple(DuperTuple::from(Vec::new())) }
}

fn read_opt_id(raw: Option<DuperValue>) -> (r: Option<RequestId>)
    requires
        raw matches Some(v) ==> is_id_value(v),
    ensures
        opt_id_read_from(raw, r),
{
    match raw {
        None => None,
        Some(v) => match read_id(v) {
            Ok(id) => Some(id),
            Err(_) => None,
        },
    }
}

/// Reads one request call out of the entries of an object.
pub fn read_call(input: Vec<(DuperKey, DuperValue)>) -> (r: Result<RequestCall, DecodeError>)
    ensures
        call_read(r, input@),
{
    let mut entries = input;
    let ghost all = input@;
    let mut version = false;
    let mut id: Option<DuperValue> = None;
    let mut method: Option<DuperValue> = None;
    let mut params: Option<DuperValue> = None;
    let mut invalid = false;
    let n = entries.len();
    let mut i: usize = 0;
    proof {
        reveal_strlit("duper_rpc");
        reveal_strlit("id");
        reveal_strlit("method");
        reveal_strlit("params");
    }
    while i < n
        invariant
            all == input@,
            n == all.len(),
            i <= n,
            entries@ == all.skip(i as int),
            call_fields(all, i as int) == Ok::<CallFields, Failure>(
                CallFields { version, id, method, params, invalid },
            ),
            id matches Some(v) ==> is_id_value(v),
            method matches Some(v) ==> v.inner is String,
        decreases n - i,
    {
        let (k, val) = entries.remove(0);
        assert(all.skip(i as int + 1) == all.skip(i as int).remove(0));
        assert(all[i as int] == (k, val));
        if key_is(&k, "duper_rpc") {
            if version {
                invalid = true;
            } else if !is_string_value(&val) {
                proof {
                    assert(call_fields(all, i as int + 1) == Err::<CallFields, Failure>(
                        Failure::InvalidType,
                    ));
                    lemma_call_fields_sticks(all, i as int + 1);
                }
                return Err(DecodeError::InvalidType);
            } else if string_value_is(&val, "0.1") {
                version = true;
            } else {
                invalid = true;
            }
        } else if key_is(&k, "id") {
            if id.is_some() {
                invalid = true;
            } else if !is_id_kind(&val) {
                proof {
                    assert(call_fields(all, i as int + 1) == Err::<CallFields, Failure>(
                        Failure::InvalidType,
                    ));
                    lemma_call_fields_sticks(all, i as int + 1);
                }
                return Err(DecodeError::InvalidType);
            } else {
                id = Some(val);
            }
        } else if key_is(&k, "method") {
            if method.is_some() {
                invalid = true;
            } else if !is_string_value(&val) {
                proof {
                    assert(call_fields(all, i as int + 1) == Err::<CallFields, Failure>(
                        Failure::InvalidType,
                    ));
                    lemma_call_fields_sticks(all, i as int + 1);
                }
                return Err(DecodeError::InvalidType);
            } else {
                method = Some(val);
            }
        } else if key_is(&k, "params") {
            if params.is_some() {
                invalid = true;
            } else {
                params = Some(val);
            }
        } else {
            invalid = true;
        }
        i += 1;
    }
    let the_id = read_opt_id(id);
    if invalid || !version || method.is_none() {
        return Ok(RequestCall::Invalid { id: the_id, error: Error::InvalidRequest });
    }
    let name = match method {
        Some(m) => match m.inner {
            DuperInner::String(s) => s.into_inner(),
            _ => String::new(),
        },
        None => String::new(),
    };
    let p = match params {
        Some(p) => p,
        None => empty_params(),
    };
    Ok(RequestCall::Valid { id: the_id, method: name, params: p })
}

/// What a request value reads as: an object is a single call; an array or
/// tuple whose elements are all objects that read as calls is a batch of
/// those calls; anything else, or any failure, is a single invalid call
/// without ID.
pub open spec fn request_read_ok(v: DuperValue, r: Request) -> bool {
    match v.inner {
        DuperInner::Object(o) => match call_fields(o@, o@.len() as int) {
            Ok(st) => r matches Request::Single(c) && call_from_fields(c, st),
            Err(_) => is_unreadable_request(r),
        },
        DuperInner::Array(a) => batch_read(a@, r),
        DuperInner::Tuple(t) => batch_read(t@, r),
        _ => is_unreadable_request(r),
    }
}

/// The answer to a request that cannot be read: a single invalid call.
pub open spec fn is_unreadable_request(r: Request) -> bool {
    r matches Request::Single(RequestCall::Invalid { id: None, error: Error::InvalidRequest })
}

/// Whether every element is an object whose entries read as a call.
pub open spec fn all_calls_readable(items: Seq<DuperValue>) -> bool {
    forall|i: int|
        0 <= i < items.len() ==> (#[trigger] items[i]).inner is Object && call_fields(
            items[i].inner->Object_0@,
            items[i].inner->Object_0@.len() as int,
        ) is Ok
}

/// What a sequence of request values reads as.
pub open spec fn batch_read(items: Seq<DuperValue>, r: Request) -> bool {
    if all_calls_readable(items) {
        r matches Request::Batch(v) && v@.len() == items.len() && forall|i: int|
            0 <= i < items.len() ==> call_from_fields(
                #[trigger] v@[i],
                call_fields(items[i].inner->Object_0@, items[i].inner->Object_0@.len() as int)->Ok_0,
            )
    } else {
        is_unreadable_request(r)
    }
}

fn unreadable_request() -> (r: Request)
    ensures
        is_unreadable_request(r),
{
    Request::Single(RequestCall::Invalid { id: None, error: Error::InvalidRequest })
}

/// Reads a request out of a value. Reading a request never fails: what
/// cannot be read becomes a single invalid call.
pub fn read_request(v: DuperValue) -> (r: Request)
    ensures
        request_read_ok(v, r),
{
    let ghost whole = v;
    match v.inner {
        DuperInner::Object(o) => {
            match read_call(o.into_inner()) {
                Ok(c) => Request::Single(c),
                Err(_) => unreadable_request(),
            }
        },
        DuperInner::Array(a) => read_batch(a.into_inner()),
        DuperInner::Tuple(t) => read_batch(t.into_inner()),
        _ => unreadable_request(),
    }
}

fn read_batch(input: Vec<DuperValue>) -> (r: Request)
    ensures
        batch_read(input@, r),
{
    let mut items = input;
    let ghost all = input@;
    let mut calls: Vec<RequestCall> = Vec::new();
    let n = items.len();
    let mut i: usize = 0;
    while i < n
        invariant
            all == input@,
            n == all.len(),
            i <= n,
            items@ == all.skip(i as int),
            calls@.len() == i,
            forall|j: int|
                0 <= j < i ==> (#[trigger] all[j]).inner is Object && call_fields(
                    all[j].inner->Object_0@,
                    all[j].inner->Object_0@.len() as int,
                ) is Ok,
            forall|j: int|
                0 <= j < i ==> call_from_fields(
                    #[trigger] calls@[j],
                    call_fields(all[j].inner->Object_0@, all[j].inner->Object_0@.len() as int)->Ok_0,
                ),
        decreases n - i,
    {
        let item = items.remove(0);
        assert(all.skip(i as int + 1) == all.skip(i as int).remove(0));
        assert(item == all[i as int]);
        match entries_of(item) {
            Some(entries) => match read_call(entries) {
                Ok(c) => {
                    calls.push(c);
                },
                Err(_) => {
                    assert(call_fields(all[i as int].inner->Object_0@, all[i as int].inner->Object_0@.len() as int) is Err);
                    assert(!all_calls_readable(all));
                    return unreadable_request();
                },
            },
            None => {
                assert(!(all[i as int].inner is Object));
                assert(!all_calls_readable(all));
                return unreadable_request();
            },
        }
        i += 1;
    }
    Request::Batch(calls)
}

} // verus!

verus! {

// ---------------------------------------------------------------------------
// Responses
// ---------------------------------------------------------------------------

/// The fields of a response result read so far.
pub struct ResultFields {
    pub version: bool,
    pub id: Option<DuperValue>,
    pub result: Option<DuperValue>,
    pub error: Option<DuperValue>,
}

/// The fields of a response result after the first `n` entries; a repeated
/// or unknown field, an unknown version, or a value of the wrong kind fails.
pub open spec fn result_fields(s: Seq<(DuperKey, DuperValue)>, n: int) -> Result<
    ResultFields,
    Failure,
>
    decreases n,
{
    if n <= 0 {
        Ok(ResultFields { version: false, id: None, result: None, error: None })
    } else {
        match result_fields(s, n - 1) {
            Err(f) => Err(f),
            Ok(st) => {
                let (k, v) = s[n - 1];
                if k@ == "duper_rpc"@ {
                    if st.version {
                        Err(Failure::DuplicateField("duper_rpc"@))
                    } else if !(v.inner is String) {
                        Err(Failure::InvalidType)
                    } else if text_of(v) == "0.1"@ {
                        Ok(ResultFields { version: true, ..st })
                    } else {
                        Err(Failure::InvalidValue(text_of(v)))
                    }
                } else if k@ == "id"@ {
                    if st.id is Some {
                        Err(Failure::DuplicateField("id"@))
                    } else if !is_id_value(v) {
                        Err(Failure::InvalidType)
                    } else {
                        Ok(ResultFields { id: Some(v), ..st })
                    }
                } else if k@ == "result"@ {
                    if st.result is Some {
                        Err(Failure::DuplicateField("result"@))
                    } else {
                        Ok(ResultFields { result: Some(v), ..st })
                    }
                } else if k@ == "error"@ {
                    if st.error is Some {
                        Err(Failure::DuplicateField("error"@))
                    } else {
                        match error_value_read(v) {
                            Err(f) => Err(f),
                            Ok(_) => Ok(ResultFields { error: Some(v), ..st }),
                        }
                    }
                } else {
                    Err(Failure::UnknownField(k@))
                }
            },
        }
    }
}

/// Whether `r` is what reading the response-result entries `s` gives: a
/// success needs an ID and a result; a failure has an error and maybe an
/// ID; the version is required, and result and error exclude each other.
pub open spec fn result_read(r: Result<ResponseResult, DecodeError>, s: Seq<(DuperKey, DuperValue)>) -> bool {
    match result_fields(s, s.len() as int) {
        Err(f) => r matches Err(e) && failure_of(e) == f,
        Ok(st) => if !st.version {
            r matches Err(e) && failure_of(e) == Failure::MissingField("duper_rpc"@)
        } else {
            match (st.result, st.error) {
                (Some(res), None) => match st.id {
                    None => r matches Err(e) && failure_of(e) == Failure::MissingField("id"@),
                    Some(idv) => r matches Ok(Ok(ResponseSuccess { id, result })) && id_read_from(
                        idv,
                        id,
                    ) && result == res,
                },
                (None, Some(errv)) => r matches Ok(Err(ResponseError { id, error }))
                    && opt_id_read_from(st.id, id) && error_value_read(errv) == Ok::<
                    Error,
                    Failure,
                >(error),
                (None, None) => r matches Err(e) && failure_of(e) == Failure::MissingField(
                    "result"@,
                ),
                (Some(_), Some(_)) => r matches Err(e) && failure_of(e) == Failure::Custom(
                    "cannot have both result and error in response"@,
                ),
            }
        },
    }
}

proof fn lemma_result_fields_sticks(s: Seq<(DuperKey, DuperValue)>, k: int)
    requires
        0 <= k <= s.len(),
        result_fields(s, k) is Err,
    ensures
        result_fields(s, s.len() as int) == result_fields(s, k),
    decreases s.len() - k,
{
    if k < s.len() {
        lemma_result_fields_sticks(s, k + 1);
    }
}

/// Reads one response result out of the entries of an object.
pub fn read_result(input: Vec<(DuperKey, DuperValue)>) -> (r: Result<ResponseResult, DecodeError>)
    ensures
        result_read(r, input@),
{
    let mut entries = input;
    let ghost all = input@;
    let mut version = false;
    let mut id: Option<DuperValue> = None;
    let mut result: Option<DuperValue> = None;
    let ghost mut error: Option<DuperValue> = None;
    let mut read: Option<Error> = None;
    let n = entries.len();
    let mut i: usize = 0;
    proof {
        reveal_strlit("duper_rpc");
        reveal_strlit("id");
        reveal_strlit("result");
        reveal_strlit("error");
    }
    while i < n
        invariant
            all == input@,
            n == all.len(),
            i <= n,
            entries@ == all.skip(i as int),
            result_fields(all, i as int) == Ok::<ResultFields, Failure>(
                ResultFields { version, id, result, error },
            ),
            id matches Some(v) ==> is_id_value(v),
            error is Some <==> read is Some,
            error matches Some(ev) ==> error_value_read(ev) == Ok::<Error, Failure>(read->0),
        decreases n - i,
    {
        let (k, val) = entries.remove(0);
        assert(all.skip(i as int + 1) == all.skip(i as int).remove(0));
        assert(all[i as int] == (k, val));
        if key_is(&k, "duper_rpc") {
            if version {
                proof {
                    assert(result_fields(all, i as int + 1) == Err::<ResultFields, Failure>(
                        Failure::DuplicateField("duper_rpc"@),
                    ));
                    lemma_result_fields_sticks(all, i as int + 1);
                }
                return Err(DecodeError::DuplicateField("duper_rpc"));
            } else if !is_string_value(&val) {
                proof {
                    assert(result_fields(all, i as int + 1) == Err::<ResultFields, Failure>(
                        Failure::InvalidType,
                    ));
                    lemma_result_fields_sticks(all, i as int + 1);
                }
                return Err(DecodeError::InvalidType);
            } else if string_value_is(&val, "0.1") {
                version = true;
            } else {
                proof {
                    assert(result_fields(all, i as int + 1) == Err::<ResultFields, Failure>(
                        Failure::InvalidValue(text_of(val)),
                    ));
                    lemma_result_fields_sticks(all, i as int + 1);
                }
                let text = match val.inner {
                    DuperInner::String(s) => s.into_inner(),
                    _ => String::new(),
                };
                return Err(DecodeError::InvalidValue(text));
            }
        } else if key_is(&k, "id") {
            if id.is_some() {
                proof {
                    assert(result_fields(all, i as int + 1) == Err::<ResultFields, Failure>(
                        Failure::DuplicateField("id"@),
                    ));
                    lemma_result_fields_sticks(all, i as int + 1);
                }
                return Err(DecodeError::DuplicateField("id"));
            } else if !is_id_kind(&val) {
                proof {
                    assert(result_fields(all, i as int + 1) == Err::<ResultFields, Failure>(
                        Failure::InvalidType,
                    ));
                    lemma_result_fields_sticks(all, i as int + 1);
                }
                return Err(DecodeError::InvalidType);
            } else {
                id = Some(val);
            }
        } else if key_is(&k, "result") {
            if result.is_some() {
                proof {
                    assert(result_fields(all, i as int + 1) == Err::<ResultFields, Failure>(
                        Failure::DuplicateField("result"@),
                    ));
                    lemma_result_fields_sticks(all, i as int + 1);
                }
                return Err(DecodeError::DuplicateField("result"));
            } else {
                result = Some(val);
            }
        } else if key_is(&k, "error") {
            if read.is_some() {
                proof {
                    assert(result_fields(all, i as int + 1) == Err::<ResultFields, Failure>(
                        Failure::DuplicateField("error"@),
                    ));
                    lemma_result_fields_sticks(all, i as int + 1);
                }
                return Err(DecodeError::DuplicateField("error"));
            }
            let ghost raw = val;
            match read_error(val) {
                Ok(e) => {
                    proof {
                        error = Some(raw);
                    }
                    read = Some(e);
                },
                Err(e) => {
                    proof {
                        assert(result_fields(all, i as int + 1) == Err::<ResultFields, Failure>(
                            failure_of(e),
                        ));
                        lemma_result_fields_sticks(all, i as int + 1);
                    }
                    return Err(e);
                },
            }
        } else {
            proof {
                assert(result_fields(all, i as int + 1) == Err::<ResultFields, Failure>(
                    Failure::UnknownField(k@),
                ));
                lemma_result_fields_sticks(all, i as int + 1);
            }
            return Err(DecodeError::UnknownField(k.into_inner()));
        }
        i += 1;
    }
    if !version {
        return Err(DecodeError::MissingField("duper_rpc"));
    }
    match (result, read) {
        (Some(res), None) => match id {
            None => Err(DecodeError::MissingField("id")),
            Some(idv) => match read_id(idv) {
                Ok(the_id) => Ok(Ok(ResponseSuccess { id: the_id, result: res })),
                Err(e) => Err(e),
            },
        },
        (None, Some(e)) => {
            let the_id = read_opt_id(id);
            Ok(Err(ResponseError { id: the_id, error: e }))
        },
        (None, None) => Err(DecodeError::MissingField("result")),
        (Some(_), Some(_)) => Err(DecodeError::Custom("cannot have both result and error in response")),
    }
}

} // verus!

verus! {

/// Whether the entries `s` read as a response result.
pub open spec fn result_readable(s: Seq<(DuperKey, DuperValue)>) -> bool {
    exists|r: Result<ResponseResult, DecodeError>| result_read(r, s) && r is Ok
}

/// Whether `x` is what the entries `s` read as, when they read.
pub open spec fn result_read_as(x: ResponseResult, s: Seq<(DuperKey, DuperValue)>) -> bool {
    result_read(Ok(x), s)
}

/// What a response value reads as: an object is a single result; an array
/// or tuple is a batch, read element by element, where the first element
/// that is not an object or does not read fails the whole; anything else
/// has the wrong type.
pub open spec fn response_read(v: DuperValue, r: Result<Response, DecodeError>) -> bool {
    match v.inner {
        DuperInner::Object(o) => match r {
            Ok(Response::Single(x)) => result_read_as(x, o@),
            Ok(Response::Batch(_)) => false,
            Err(e) => result_read(Err(e), o@),
        },
        DuperInner::Array(a) => batch_response_read(a@, r),
        DuperInner::Tuple(t) => batch_response_read(t@, r),
        _ => r matches Err(DecodeError::InvalidType),
    }
}

/// What a sequence of response values reads as.
pub open spec fn batch_response_read(items: Seq<DuperValue>, r: Result<Response, DecodeError>) -> bool {
    match r {
        Ok(Response::Batch(v)) => v@.len() == items.len() && forall|i: int|
            0 <= i < items.len() ==> (#[trigger] items[i]).inner is Object && result_read_as(
                v@[i],
                items[i].inner->Object_0@,
            ),
        Ok(Response::Single(_)) => false,
        Err(e) => exists|i: int|
            0 <= i < items.len() && (forall|j: int|
                0 <= j < i ==> (#[trigger] items[j]).inner is Object && result_readable(
                    items[j].inner->Object_0@,
                )) && if items[i].inner is Object {
                result_read(Err(e), items[i].inner->Object_0@)
            } else {
                e is InvalidType
            },
    }
}

/// Reads a response out of a value.
pub fn read_response(v: DuperValue) -> (r: Result<Response, DecodeError>)
    ensures
        response_read(v, r),
{
    match v.inner {
        DuperInner::Object(o) => match read_result(o.into_inner()) {
            Ok(x) => Ok(Response::Single(x)),
            Err(e) => Err(e),
        },
        DuperInner::Array(a) => read_response_batch(a.into_inner()),
        DuperInner::Tuple(t) => read_response_batch(t.into_inner()),
        _ => Err(DecodeError::InvalidType),
    }
}

fn read_response_batch(input: Vec<DuperValue>) -> (r: Result<Response, DecodeError>)
    ensures
        batch_response_read(input@, r),
{
    let mut items = input;
    let ghost all = input@;
    let mut results: Vec<ResponseResult> = Vec::new();
    let n = items.len();
    let mut i: usize = 0;
    while i < n
        invariant
            all == input@,
            n == all.len(),
            i <= n,
            items@ == all.skip(i as int),
            results@.len() == i,
            forall|j: int|
                0 <= j < i ==> (#[trigger] all[j]).inner is Object && result_read_as(
                    results@[j],
                    all[j].inner->Object_0@,
                ),
        decreases n - i,
    {
        let item = items.remove(0);
        assert(all.skip(i as int + 1) == all.skip(i as int).remove(0));
        assert(item == all[i as int]);
        match entries_of(item) {
            Some(entries) => match read_result(entries) {
                Ok(x) => {
                    results.push(x);
                },
                Err(e) => {
                    proof {
                        assert forall|j: int| 0 <= j < i implies (#[trigger] all[j]).inner is Object
                            && result_readable(all[j].inner->Object_0@) by {
                            assert(result_read(Ok(results@[j]), all[j].inner->Object_0@));
                        }
                    }
                    return Err(e);
                },
            },
            None => {
                proof {
                    assert forall|j: int| 0 <= j < i implies (#[trigger] all[j]).inner is Object
                        && result_readable(all[j].inner->Object_0@) by {
                        assert(result_read(Ok(results@[j]), all[j].inner->Object_0@));
                    }
                }
                return Err(DecodeError::InvalidType);
            },
        }
        i += 1;
    }
    Ok(Response::Batch(results))
}

} // verus!
