//! Writing RPC messages as Duper values.
use vstd::prelude::*;
use crate::ast::{DuperArray, DuperInner, DuperKey, DuperObject, DuperString, DuperValue};
use crate::rpc::request::{Request, RequestCall};
use crate::rpc::response::{Response, ResponseError, ResponseResult, ResponseSuccess};
use crate::rpc::{Error, RequestId};

verus! {

/// Whether `v` is the unnamed string `s`.
pub open spec fn is_text(v: DuperValue, s: Seq<char>) -> bool {
    v.identifier is None && v.inner is String && v.inner->String_0@ == s
}

/// Whether `v` is an unnamed object whose entries have the given keys, in
/// order.
pub open spec fn is_object_with_keys(v: DuperValue, keys: Seq<Seq<char>>) -> bool {
    &&& v.identifier is None
    &&& v.inner is Object
    &&& v.inner->Object_0@.len() == keys.len()
    &&& forall|i: int| 0 <= i < keys.len() ==> (#[trigger] v.inner->Object_0@[i]).0@ == keys[i]
}

/// The `i`-th value of an object.
pub open spec fn field(v: DuperValue, i: int) -> DuperValue {
    v.inner->Object_0@[i].1
}

/// The name under which an error is written.
pub open spec fn error_name(e: Error) -> Seq<char> {
    match e {
        Error::ParseError => "ParseError"@,
        Error::InvalidRequest => "InvalidRequest"@,
        Error::MethodNotFound => "MethodNotFound"@,
        Error::InvalidParams => "InvalidParams"@,
        Error::InternalError => "InternalError"@,
        Error::Custom(_) => "Custom"@,
    }
}

/// Whether `v` is how `e` is written: `{type: name}`, and for a custom
/// error `{type: "Custom", value: value}`.
pub open spec fn encodes_error(v: DuperValue, e: Error) -> bool {
    match e {
        Error::Custom(x) => is_object_with_keys(v, seq!["type"@, "value"@]) && is_text(
            field(v, 0),
            "Custom"@,
        ) && field(v, 1) == x,
        _ => is_object_with_keys(v, seq!["type"@]) && is_text(field(v, 0), error_name(e)),
    }
}

/// Whether `v` is how a request ID is written: the bare string or integer.
pub open spec fn encodes_id(v: DuperValue, id: RequestId) -> bool {
    match id {
        RequestId::String { inner, .. } => is_text(v, inner@),
        RequestId::Integer { inner, .. } => v.identifier is None && v.inner == DuperInner::Integer(
            inner,
        ),
    }
}

fn text(s: String) -> (v: DuperValue)
    ensures
        is_text(v, s@),
{
    DuperValue { identifier: None, inner: DuperInner::String(DuperString::from(s)) }
}

fn text_lit(s: &str) -> (v: DuperValue)
    ensures
        is_text(v, s@),
{
    text(s.to_owned())
}

fn entry(k: &str, v: DuperValue) -> (e: (DuperKey, DuperValue))
    ensures
        e.0@ == k@,
        e.1 == v,
{
    (DuperKey::from(k.to_owned()), v)
}

fn object(entries: Vec<(DuperKey, DuperValue)>) -> (v: DuperValue)
    ensures
        v.identifier is None,
        v.inner is Object,
        v.inner->Object_0@ == entries@,
{
    DuperValue { identifier: None, inner: DuperInner::Object(DuperObject::from_entries(entries)) }
}

/// Writes an RPC error.
pub fn encode_error(e: Error) -> (v: DuperValue)
    ensures
        encodes_error(v, e),
{
    let name = match &e {
        Error::ParseError => "ParseError",
        Error::InvalidRequest => "InvalidRequest",
        Error::MethodNotFound => "MethodNotFound",
        Error::InvalidParams => "InvalidParams",
        Error::InternalError => "InternalError",
        Error::Custom(_) => "Custom",
    };
    let mut entries = Vec::new();
    entries.push(entry("type", text_lit(name)));
    match e {
        Error::Custom(x) => {
            entries.push(entry("value", x));
        },
        _ => {},
    }
    let v = object(entries);
    proof {
        reveal_strlit("type");
        reveal_strlit("value");
    }
    v
}

/// Writes a request ID: the bare string or integer.
pub fn encode_id(id: RequestId) -> (v: DuperValue)
    ensures
        encodes_id(v, id),
{
    match id {
        RequestId::String { inner, .. } => text(inner),
        RequestId::Integer { inner, .. } => DuperValue {
            identifier: None,
            inner: DuperInner::Integer(inner),
        },
    }
}

/// Whether `v` is how a call is written: `duper_rpc`, `id` (only when
/// there is one), `method` and `params`.
pub open spec fn encodes_call(v: DuperValue, c: RequestCall) -> bool {
    match c {
        RequestCall::Valid { id: Some(i), method, params } => is_object_with_keys(
            v,
            seq!["duper_rpc"@, "id"@, "method"@, "params"@],
        ) && is_text(field(v, 0), "0.1"@) && encodes_id(field(v, 1), i) && is_text(
            field(v, 2),
            method@,
        ) && field(v, 3) == params,
        RequestCall::Valid { id: None, method, params } => is_object_with_keys(
            v,
            seq!["duper_rpc"@, "method"@, "params"@],
        ) && is_text(field(v, 0), "0.1"@) && is_text(field(v, 1), method@) && field(v, 2)
            == params,
        RequestCall::Invalid { .. } => false,
    }
}

/// Writes a call; an invalid call cannot be written.
pub fn encode_call(c: RequestCall) -> (r: Result<DuperValue, &'static str>)
    ensures
        c is Valid ==> (r matches Ok(v) && encodes_call(v, c)),
        c is Invalid ==> r == Err::<DuperValue, &'static str>("cannot serialize invalid RPC request"),
{
    match c {
        RequestCall::Valid { id, method, params } => {
            let mut entries = Vec::new();
            entries.push(entry("duper_rpc", text_lit("0.1")));
            match id {
                Some(i) => {
                    entries.push(entry("id", encode_id(i)));
                },
                None => {},
            }
            entries.push(entry("method", text(method)));
            entries.push(entry("params", params));
            let v = object(entries);
            proof {
                reveal_strlit("duper_rpc");
                reveal_strlit("id");
                reveal_strlit("method");
                reveal_strlit("params");
            }
            Ok(v)
        },
        RequestCall::Invalid { .. } => Err("cannot serialize invalid RPC request"),
    }
}

/// Whether `v` is how a response result is written: `duper_rpc`, `id`, and
/// `result` for a success; `duper_rpc`, `id` (null when unknown) and
/// `error` for a failure.
pub open spec fn encodes_result(v: DuperValue, r: ResponseResult) -> bool {
    match r {
        Ok(ResponseSuccess { id, result }) => is_object_with_keys(
            v,
            seq!["duper_rpc"@, "id"@, "result"@],
        ) && is_text(field(v, 0), "0.1"@) && encodes_id(field(v, 1), id) && field(v, 2) == result,
        Err(ResponseError { id, error }) => is_object_with_keys(
            v,
            seq!["duper_rpc"@, "id"@, "error"@],
        ) && is_text(field(v, 0), "0.1"@) && match id {
            Some(i) => encodes_id(field(v, 1), i),
            None => field(v, 1) == DuperValue { identifier: None, inner: DuperInner::Null },
        } && encodes_error(field(v, 2), error),
    }
}

/// Writes a response result.
pub fn encode_result(r: ResponseResult) -> (v: DuperValue)
    ensures
        encodes_result(v, r),
{
    let mut entries = Vec::new();
    entries.push(entry("duper_rpc", text_lit("0.1")));
    let ghost was = r;
    match r {
        Ok(ResponseSuccess { id, result }) => {
            entries.push(entry("id", encode_id(id)));
            entries.push(entry("result", result));
        },
        Err(ResponseError { id, error }) => {
            match id {
                Some(i) => {
                    entries.push(entry("id", encode_id(i)));
                },
                None => {
                    entries.push(entry("id", DuperValue { identifier: None, inner: DuperInner::Null }));
                },
            }
            entries.push(entry("error", encode_error(error)));
        },
    }
    let v = object(entries);
    proof {
        reveal_strlit("duper_rpc");
        reveal_strlit("id");
        reveal_strlit("result");
        reveal_strlit("error");
    }
    v
}

/// Whether `v` is how a response is written: a single result, or an
/// unnamed array of the batch's results.
pub open spec fn encodes_response(v: DuperValue, r: Response) -> bool {
    match r {
        Response::Single(x) => encodes_result(v, x),
        Response::Batch(xs) => v.identifier is None && v.inner is Array && v.inner->Array_0@.len()
            == xs@.len() && forall|i: int|
            0 <= i < xs@.len() ==> encodes_result(#[trigger] v.inner->Array_0@[i], xs@[i]),
    }
}

/// Writes a response: a single result, or an array of the batch's results.
pub fn encode_response(r: Response) -> (v: DuperValue)
    ensures
        encodes_response(v, r),
{
    match r {
        Response::Single(x) => encode_result(x),
        Response::Batch(xs) => {
            let mut xs = xs;
            let ghost all = xs@;
            let mut out: Vec<DuperValue> = Vec::new();
            let n = xs.len();
            let mut i: usize = 0;
            while i < n
                invariant
                    n == all.len(),
                    i <= n,
                    xs@ == all.skip(i as int),
                    out@.len() == i,
                    forall|j: int| 0 <= j < i ==> encodes_result(#[trigger] out@[j], all[j]),
                decreases n - i,
            {
                let x = xs.remove(0);
                assert(all.skip(i as int + 1) == all.skip(i as int).remove(0));
                assert(x == all[i as int]);
                out.push(encode_result(x));
                i += 1;
            }
            DuperValue { identifier: None, inner: DuperInner::Array(DuperArray::from(out)) }
        },
    }
}

/// Whether `v` is how a request is written: a single call, or an unnamed
/// array of the batch's calls.
pub open spec fn encodes_request(v: DuperValue, r: Request) -> bool {
    match r {
        Request::Single(c) => encodes_call(v, c),
        Request::Batch(cs) => v.identifier is None && v.inner is Array && v.inner->Array_0@.len()
            == cs@.len() && forall|i: int|
            0 <= i < cs@.len() ==> encodes_call(#[trigger] v.inner->Array_0@[i], cs@[i]),
    }
}

/// Writes a request: a single call, or an array of the batch's calls; an
/// invalid call cannot be written.
pub fn encode_request(r: Request) -> (res: Result<DuperValue, &'static str>)
    ensures
        res matches Ok(v) ==> encodes_request(v, r),
        res is Err <==> exists|i: int| 0 <= i < r.calls().len() && (#[trigger] r.calls()[i]) is Invalid,
        res matches Err(m) ==> m@ == "cannot serialize invalid RPC request"@,
{
    match r {
        Request::Single(c) => {
            let res = encode_call(c);
            assert(r.calls() == seq![c]);
            assert(c is Invalid ==> r.calls()[0] is Invalid);
            res
        },
        Request::Batch(cs) => {
            let mut cs = cs;
            let ghost all = cs@;
            let mut out: Vec<DuperValue> = Vec::new();
            let n = cs.len();
            let mut i: usize = 0;
            while i < n
                invariant
                    r is Batch,
                    all == r->Batch_0@,
                    n == all.len(),
                    i <= n,
                    cs@ == all.skip(i as int),
                    out@.len() == i,
                    forall|j: int| 0 <= j < i ==> encodes_call(#[trigger] out@[j], all[j]),
                    forall|j: int| 0 <= j < i ==> (#[trigger] all[j]) is Valid,
                decreases n - i,
            {
                let c = cs.remove(0);
                assert(all.skip(i as int + 1) == all.skip(i as int).remove(0));
                assert(c == all[i as int]);
                match encode_call(c) {
                    Ok(v) => out.push(v),
                    Err(m) => {
                        assert(all[i as int] is Invalid);
                        assert(r.calls()[i as int] is Invalid);
                        return Err(m);
                    },
                }
                i += 1;
            }
            let v = DuperValue { identifier: None, inner: DuperInner::Array(DuperArray::from(out)) };
            assert(r.calls() == all);
            assert(forall|j: int| 0 <= j < all.len() ==> !((#[trigger] all[j]) is Invalid));
            Ok(v)
        },
    }
}

} // verus!
