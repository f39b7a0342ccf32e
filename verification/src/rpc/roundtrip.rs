//! Reading back what was written: a message written by `encode` reads as
//! the same message.
use vstd::prelude::*;
use crate::ast::DuperValue;
use crate::rpc::decode::{
    all_calls_readable, call_fields, call_from_fields, error_fields, error_value_read,
    id_read_from, is_id_value, plain_error, request_read_ok, response_read, result_fields,
    result_read, result_readable, text_of, CallFields, DecodeError, Failure, ResultFields,
};
use crate::rpc::encode::{
    encodes_call, encodes_error, encodes_id, encodes_request, encodes_response, encodes_result,
    field,
};
use crate::rpc::request::{Request, RequestCall};
use crate::rpc::response::{Response, ResponseError, ResponseResult, ResponseSuccess};
use crate::rpc::{Error, RequestId};

verus! {

/// Whether two request IDs have the same identifier and the same string or
/// integer.
pub open spec fn same_id(a: RequestId, b: RequestId) -> bool {
    match (a, b) {
        (
            RequestId::String { identifier: i, inner: s },
            RequestId::String { identifier: j, inner: t },
        ) => i == j && s@ == t@,
        (
            RequestId::Integer { identifier: i, inner: m },
            RequestId::Integer { identifier: j, inner: n },
        ) => i == j && m == n,
        _ => false,
    }
}

/// Whether two optional request IDs are both absent or the same.
pub open spec fn same_opt_id(a: Option<RequestId>, b: Option<RequestId>) -> bool {
    match (a, b) {
        (None, None) => true,
        (Some(x), Some(y)) => same_id(x, y),
        _ => false,
    }
}

/// Whether an ID carries no identifier; IDs that are read never do.
pub open spec fn unnamed_id(id: RequestId) -> bool {
    match id {
        RequestId::String { identifier, .. } => identifier is None,
        RequestId::Integer { identifier, .. } => identifier is None,
    }
}

/// Whether a call is valid and its ID, if any, carries no identifier.
pub open spec fn writable_call(c: RequestCall) -> bool {
    c matches RequestCall::Valid { id, .. } && (id matches Some(i) ==> unnamed_id(i))
}

/// Whether two calls are valid calls of the same method, with the same ID
/// and parameters.
pub open spec fn same_call(a: RequestCall, b: RequestCall) -> bool {
    match (a, b) {
        (
            RequestCall::Valid { id: i, method: m, params: p },
            RequestCall::Valid { id: j, method: n, params: q },
        ) => same_opt_id(i, j) && m@ == n@ && p == q,
        _ => false,
    }
}

/// A written ID is a string or integer, and what is read from it is the
/// ID again.
pub proof fn lemma_id_read_back(id: RequestId, v: DuperValue)
    requires
        encodes_id(v, id),
        unnamed_id(id),
    ensures
        is_id_value(v),
        forall|read: RequestId| #[trigger] id_read_from(v, read) ==> same_id(read, id),
{
}

/// Reading back a written error gives the same error.
pub proof fn lemma_error_read_back(e: Error, v: DuperValue)
    requires
        encodes_error(v, e),
    ensures
        error_value_read(v) == Ok::<Error, Failure>(e),
{
    reveal_strlit("type");
    reveal_strlit("value");
    reveal_strlit("ParseError");
    reveal_strlit("InvalidRequest");
    reveal_strlit("MethodNotFound");
    reveal_strlit("InvalidParams");
    reveal_strlit("InternalError");
    reveal_strlit("Custom");
    let s = v.inner->Object_0@;
    assert(s[0].0@ == "type"@);
    assert(error_fields(s, 0) == Ok::<(Option<DuperValue>, Option<DuperValue>), Failure>(
        (None, None),
    ));
    assert(error_fields(s, 1) == Ok::<(Option<DuperValue>, Option<DuperValue>), Failure>(
        (Some(field(v, 0)), None),
    ));
    match e {
        Error::Custom(x) => {
            assert(s[1].0@ == "value"@);
            assert(error_fields(s, 2) == Ok::<(Option<DuperValue>, Option<DuperValue>), Failure>(
                (Some(field(v, 0)), Some(x)),
            ));
            assert(plain_error(text_of(field(v, 0))) is None);
        },
        Error::ParseError => {
            assert(plain_error(text_of(field(v, 0))) == Some(e));
        },
        Error::InvalidRequest => {
            assert("InvalidRequest"@.len() != "ParseError"@.len());
            assert(plain_error(text_of(field(v, 0))) == Some(e));
        },
        Error::MethodNotFound => {
            assert("MethodNotFound"@[0] != "InvalidRequest"@[0]);
            assert(plain_error(text_of(field(v, 0))) == Some(e));
        },
        Error::InvalidParams => {
            assert("InvalidParams"@.len() != "ParseError"@.len());
            assert("InvalidParams"@.len() != "InvalidRequest"@.len());
            assert("InvalidParams"@.len() != "MethodNotFound"@.len());
            assert(plain_error(text_of(field(v, 0))) == Some(e));
        },
        Error::InternalError => {
            assert("InternalError"@.len() != "ParseError"@.len());
            assert("InternalError"@.len() != "InvalidRequest"@.len());
            assert("InternalError"@.len() != "MethodNotFound"@.len());
            assert("InternalError"@[2] != "InvalidParams"@[2]);
            assert(plain_error(text_of(field(v, 0))) == Some(e));
        },
    }
}

/// Every error is written under its own name: the `type` of a written
/// `ParseError` is `"ParseError"`, that of an `InvalidRequest` is
/// `"InvalidRequest"`, and so on, and a custom error is written as
/// `"Custom"` beside its value.
pub proof fn lemma_errors_written_by_name(e: Error, v: DuperValue)
    requires
        encodes_error(v, e),
    ensures
        e is ParseError ==> text_of(field(v, 0)) == "ParseError"@,
        e is InvalidRequest ==> text_of(field(v, 0)) == "InvalidRequest"@,
        e is MethodNotFound ==> text_of(field(v, 0)) == "MethodNotFound"@,
        e is InvalidParams ==> text_of(field(v, 0)) == "InvalidParams"@,
        e is InternalError ==> text_of(field(v, 0)) == "InternalError"@,
        e is Custom ==> text_of(field(v, 0)) == "Custom"@ && field(v, 1) == e->Custom_0,
{
}

/// An object whose one field is `type` with the name of a plain error reads
/// as the error of that name: `{type: "InvalidParams"}` is an
/// `InvalidParams`, `{type: "InvalidRequest"}` an `InvalidRequest`, and so
/// on, whatever identifiers the values carry.
pub proof fn lemma_errors_read_by_name(v: DuperValue)
    requires
        v.inner is Object,
        v.inner->Object_0@.len() == 1,
        v.inner->Object_0@[0].0@ == "type"@,
        field(v, 0).inner is String,
    ensures
        text_of(field(v, 0)) == "ParseError"@ ==> error_value_read(v) == Ok::<Error, Failure>(
            Error::ParseError,
        ),
        text_of(field(v, 0)) == "InvalidRequest"@ ==> error_value_read(v) == Ok::<Error, Failure>(
            Error::InvalidRequest,
        ),
        text_of(field(v, 0)) == "MethodNotFound"@ ==> error_value_read(v) == Ok::<Error, Failure>(
            Error::MethodNotFound,
        ),
        text_of(field(v, 0)) == "InvalidParams"@ ==> error_value_read(v) == Ok::<Error, Failure>(
            Error::InvalidParams,
        ),
        text_of(field(v, 0)) == "InternalError"@ ==> error_value_read(v) == Ok::<Error, Failure>(
            Error::InternalError,
        ),
{
    reveal_strlit("type");
    reveal_strlit("ParseError");
    reveal_strlit("InvalidRequest");
    reveal_strlit("MethodNotFound");
    reveal_strlit("InvalidParams");
    reveal_strlit("InternalError");
    let s = v.inner->Object_0@;
    assert(error_fields(s, 0) == Ok::<(Option<DuperValue>, Option<DuperValue>), Failure>(
        (None, None),
    ));
    assert(error_fields(s, 1) == Ok::<(Option<DuperValue>, Option<DuperValue>), Failure>(
        (Some(field(v, 0)), None),
    ));
    let name = text_of(field(v, 0));
    assert("InvalidRequest"@.len() != "ParseError"@.len());
    assert("MethodNotFound"@.len() != "ParseError"@.len());
    assert("MethodNotFound"@[0] != "InvalidRequest"@[0]);
    assert("InvalidParams"@.len() != "ParseError"@.len());
    assert("InvalidParams"@.len() != "InvalidRequest"@.len());
    assert("InvalidParams"@.len() != "MethodNotFound"@.len());
    assert("InternalError"@.len() != "ParseError"@.len());
    assert("InternalError"@.len() != "InvalidRequest"@.len());
    assert("InternalError"@.len() != "MethodNotFound"@.len());
    assert("InternalError"@[2] != "InvalidParams"@[2]);
    if name == "ParseError"@ {
        assert(plain_error(name) == Some(Error::ParseError));
    } else if name == "InvalidRequest"@ {
        assert(plain_error(name) == Some(Error::InvalidRequest));
    } else if name == "MethodNotFound"@ {
        assert(plain_error(name) == Some(Error::MethodNotFound));
    } else if name == "InvalidParams"@ {
        assert(plain_error(name) == Some(Error::InvalidParams));
    } else if name == "InternalError"@ {
        assert(plain_error(name) == Some(Error::InternalError));
    }
}

/// The entries of a written call read, and whatever call they read as is
/// the written call.
pub proof fn lemma_call_fields_read_back(c: RequestCall, v: DuperValue)
    requires
        encodes_call(v, c),
        writable_call(c),
    ensures
        v.inner is Object,
        call_fields(v.inner->Object_0@, v.inner->Object_0@.len() as int) is Ok,
        forall|read: RequestCall|
            #[trigger] call_from_fields(
                read,
                call_fields(v.inner->Object_0@, v.inner->Object_0@.len() as int)->Ok_0,
            ) ==> same_call(read, c),
{
    reveal_strlit("duper_rpc");
    reveal_strlit("id");
    reveal_strlit("method");
    reveal_strlit("params");
    reveal_strlit("0.1");
    let s = v.inner->Object_0@;
    let st0 = CallFields { version: false, id: None, method: None, params: None, invalid: false };
    let st1 = CallFields { version: true, ..st0 };
    assert(s[0].0@ == "duper_rpc"@);
    assert(call_fields(s, 0) == Ok::<CallFields, Failure>(st0));
    assert(call_fields(s, 1) == Ok::<CallFields, Failure>(st1));
    match c {
        RequestCall::Valid { id: Some(i), method, params } => {
            lemma_id_read_back(i, field(v, 1));
            let st2 = CallFields { id: Some(field(v, 1)), ..st1 };
            let st3 = CallFields { method: Some(field(v, 2)), ..st2 };
            let st4 = CallFields { params: Some(field(v, 3)), ..st3 };
            assert(s[1].0@ == "id"@);
            assert(call_fields(s, 2) == Ok::<CallFields, Failure>(st2));
            assert(s[2].0@ == "method"@);
            assert(call_fields(s, 3) == Ok::<CallFields, Failure>(st3));
            assert(s[3].0@ == "params"@);
            assert("params"@[0] != "method"@[0]);
            assert(call_fields(s, 4) == Ok::<CallFields, Failure>(st4));
        },
        RequestCall::Valid { id: None, method, params } => {
            let st2 = CallFields { method: Some(field(v, 1)), ..st1 };
            let st3 = CallFields { params: Some(field(v, 2)), ..st2 };
            assert(s[1].0@ == "method"@);
            assert(call_fields(s, 2) == Ok::<CallFields, Failure>(st2));
            assert(s[2].0@ == "params"@);
            assert("params"@[0] != "method"@[0]);
            assert(call_fields(s, 3) == Ok::<CallFields, Failure>(st3));
        },
        RequestCall::Invalid { .. } => {},
    }
}

/// Whether two requests hold the same calls in the same shape.
pub open spec fn same_request(a: Request, b: Request) -> bool {
    match (a, b) {
        (Request::Single(x), Request::Single(y)) => same_call(x, y),
        (Request::Batch(xs), Request::Batch(ys)) => xs@.len() == ys@.len() && forall|i: int|
            0 <= i < xs@.len() ==> same_call(#[trigger] xs@[i], ys@[i]),
        _ => false,
    }
}

/// Reading back a written request, whose calls are valid and have IDs
/// without identifiers, gives the same request.
pub proof fn lemma_request_read_back(req: Request, v: DuperValue)
    requires
        encodes_request(v, req),
        forall|i: int| 0 <= i < req.calls().len() ==> writable_call(#[trigger] req.calls()[i]),
    ensures
        forall|r: Request| #[trigger] request_read_ok(v, r) ==> same_request(r, req),
{
    match req {
        Request::Single(c) => {
            assert(writable_call(req.calls()[0]));
            lemma_call_fields_read_back(c, v);
        },
        Request::Batch(cs) => {
            let items = v.inner->Array_0@;
            assert forall|i: int| 0 <= i < items.len() implies (#[trigger] items[i]).inner is Object
                && call_fields(items[i].inner->Object_0@, items[i].inner->Object_0@.len() as int)
                is Ok && forall|read: RequestCall|
                #[trigger] call_from_fields(
                    read,
                    call_fields(
                        items[i].inner->Object_0@,
                        items[i].inner->Object_0@.len() as int,
                    )->Ok_0,
                ) ==> same_call(read, cs@[i]) by {
                assert(writable_call(req.calls()[i]));
                lemma_call_fields_read_back(cs@[i], items[i]);
            }
            assert(all_calls_readable(items));
        },
    }
}

/// Whether a result can be read back once written: its IDs carry no
/// identifier, and a failure has an ID (a failure without one is written
/// with a null ID, which reading refuses).
pub open spec fn writable_result(x: ResponseResult) -> bool {
    match x {
        Ok(ResponseSuccess { id, .. }) => unnamed_id(id),
        Err(ResponseError { id, .. }) => id matches Some(i) && unnamed_id(i),
    }
}

/// Whether two results have the same ID and the same result or error.
pub open spec fn same_result(a: ResponseResult, b: ResponseResult) -> bool {
    match (a, b) {
        (Ok(x), Ok(y)) => same_id(x.id, y.id) && x.result == y.result,
        (Err(x), Err(y)) => same_opt_id(x.id, y.id) && x.error == y.error,
        _ => false,
    }
}

/// The entries of a written result read as the same result, and only so.
pub proof fn lemma_result_entries_read_back(x: ResponseResult, v: DuperValue)
    requires
        encodes_result(v, x),
        writable_result(x),
    ensures
        v.inner is Object,
        forall|r: Result<ResponseResult, DecodeError>| #[trigger]
            result_read(r, v.inner->Object_0@) ==> (r matches Ok(y) && same_result(y, x)),
{
    reveal_strlit("duper_rpc");
    reveal_strlit("id");
    reveal_strlit("result");
    reveal_strlit("error");
    reveal_strlit("0.1");
    let s = v.inner->Object_0@;
    let st0 = ResultFields { version: false, id: None, result: None, error: None };
    let st1 = ResultFields { version: true, ..st0 };
    let st2 = ResultFields { id: Some(field(v, 1)), ..st1 };
    assert(s[0].0@ == "duper_rpc"@);
    assert(s[1].0@ == "id"@);
    assert(result_fields(s, 0) == Ok::<ResultFields, Failure>(st0));
    assert(result_fields(s, 1) == Ok::<ResultFields, Failure>(st1));
    match x {
        Ok(ResponseSuccess { id, result }) => {
            lemma_id_read_back(id, field(v, 1));
            assert(result_fields(s, 2) == Ok::<ResultFields, Failure>(st2));
            let st3 = ResultFields { result: Some(field(v, 2)), ..st2 };
            assert(s[2].0@ == "result"@);
            assert(result_fields(s, 3) == Ok::<ResultFields, Failure>(st3));
        },
        Err(ResponseError { id, error }) => {
            lemma_id_read_back(id->0, field(v, 1));
            assert(result_fields(s, 2) == Ok::<ResultFields, Failure>(st2));
            lemma_error_read_back(error, field(v, 2));
            let st3 = ResultFields { error: Some(field(v, 2)), ..st2 };
            assert(s[2].0@ == "error"@);
            assert(error_value_read(s[2].1) == Ok::<Error, Failure>(error));
            assert("error"@.len() != "result"@.len());
            assert(result_fields(s, 3) == Ok::<ResultFields, Failure>(st3));
        },
    }
}

/// Whether two responses hold the same results in the same shape.
pub open spec fn same_response(a: Response, b: Response) -> bool {
    match (a, b) {
        (Response::Single(x), Response::Single(y)) => same_result(x, y),
        (Response::Batch(xs), Response::Batch(ys)) => xs@.len() == ys@.len() && forall|i: int|
            0 <= i < xs@.len() ==> same_result(#[trigger] xs@[i], ys@[i]),
        _ => false,
    }
}

/// Reading back a written response, whose results can be read back, gives
/// the same response.
pub proof fn lemma_response_read_back(resp: Response, v: DuperValue)
    requires
        encodes_response(v, resp),
        forall|i: int| 0 <= i < resp.results().len() ==> writable_result(#[trigger] resp.results()[i]),
    ensures
        forall|r: Result<Response, DecodeError>| #[trigger] response_read(v, r) ==> (r matches Ok(
            read,
        ) && same_response(read, resp)),
{
    match resp {
        Response::Single(x) => {
            assert(writable_result(resp.results()[0]));
            lemma_result_entries_read_back(x, v);
        },
        Response::Batch(xs) => {
            let items = v.inner->Array_0@;
            assert forall|i: int| 0 <= i < items.len() implies (#[trigger] items[i]).inner is Object
                && forall|r: Result<ResponseResult, DecodeError>| #[trigger]
                result_read(r, items[i].inner->Object_0@) ==> (r matches Ok(y) && same_result(
                    y,
                    xs@[i],
                )) by {
                assert(writable_result(resp.results()[i]));
                lemma_result_entries_read_back(xs@[i], items[i]);
            }
            assert forall|r: Result<Response, DecodeError>| #[trigger] response_read(v, r) implies (
            r matches Ok(read) && same_response(read, resp)) by {
                match r {
                    Ok(Response::Batch(ys)) => {
                        assert forall|i: int| 0 <= i < xs@.len() implies same_result(
                            #[trigger] ys@[i],
                            xs@[i],
                        ) by {
                            assert(result_read(Ok(ys@[i]), items[i].inner->Object_0@));
                        }
                    },
                    Err(e) => {
                        let i = choose|i: int|
                            0 <= i < items.len() && (forall|j: int|
                                0 <= j < i ==> (#[trigger] items[j]).inner is Object
                                    && result_readable(items[j].inner->Object_0@)) && if items[i].inner is Object {
                                result_read(Err(e), items[i].inner->Object_0@)
                            } else {
                                e is InvalidType
                            };
                        assert(items[i].inner is Object);
                    },
                    _ => {},
                }
            }
        },
    }
}

} // verus!
