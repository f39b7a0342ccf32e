use duper::ast::{
    DuperArray, DuperIdentifier, DuperInner, DuperKey, DuperObject, DuperString, DuperTuple,
    DuperValue,
};
use duper::rpc::decode::{
    read_call, read_error, read_id, read_request, read_response, read_result, DecodeError,
};
use duper::rpc::encode::{encode_call, encode_error, encode_id, encode_request, encode_response, encode_result};
use duper::rpc::request::{Request, RequestCall};
use duper::rpc::response::{Response, ResponseError, ResponseSuccess};
use duper::rpc::server::{
    batch_response, dispatch, handler_args, plan_call, response_for, served_result, single_response,
    CallPlan, Route, Server, ServerPart,
};
use duper::rpc::{Error, RequestId};

fn plain(inner: DuperInner) -> DuperValue {
    DuperValue { identifier: None, inner }
}

fn integer(n: i64) -> DuperValue {
    plain(DuperInner::Integer(n))
}

fn text(s: &str) -> DuperValue {
    plain(DuperInner::String(DuperString::from(s.to_string())))
}

fn entries(items: Vec<(&str, DuperValue)>) -> Vec<(DuperKey, DuperValue)> {
    items.into_iter().map(|(k, v)| (DuperKey::from(k.to_string()), v)).collect()
}

fn obj(items: Vec<(&str, DuperValue)>) -> DuperValue {
    plain(DuperInner::Object(DuperObject::try_from(entries(items)).unwrap()))
}

fn tuple(items: Vec<DuperValue>) -> DuperValue {
    plain(DuperInner::Tuple(DuperTuple::from(items)))
}

fn sid(s: &str) -> RequestId {
    RequestId::String { identifier: None, inner: s.to_string() }
}

// Request IDs

#[test]
fn request_id_from_values() {
    assert_eq!(RequestId::try_from(integer(7)).unwrap(), RequestId::Integer { identifier: None, inner: 7 });
    let named = DuperValue {
        identifier: Some(DuperIdentifier::try_from("Id".to_string()).unwrap()),
        inner: DuperInner::String(DuperString::from("abc".to_string())),
    };
    match RequestId::try_from(named).unwrap() {
        RequestId::String { identifier, inner } => {
            assert_eq!(inner, "abc");
            assert_eq!(identifier.unwrap().as_str(), "Id");
        },
        other => panic!("unexpected {:?}", other),
    }
    assert_eq!(
        RequestId::try_from(plain(DuperInner::Null)).unwrap_err(),
        "expected string or integer, found null"
    );
    assert_eq!(
        RequestId::try_from(plain(DuperInner::Boolean(true))).unwrap_err(),
        "expected string or integer, found boolean"
    );
}

#[test]
fn read_id_accepts_strings_and_integers() {
    assert_eq!(read_id(text("x")).unwrap(), sid("x"));
    assert!(matches!(read_id(plain(DuperInner::Null)), Err(DecodeError::InvalidType)));
}

// Errors

#[test]
fn errors_read_back() {
    for e in [Error::ParseError, Error::InvalidRequest, Error::MethodNotFound, Error::InvalidParams, Error::InternalError] {
        let name = format!("{:?}", e);
        let back = read_error(encode_error(e)).unwrap();
        assert_eq!(format!("{:?}", back), name);
    }
    match read_error(encode_error(Error::Custom(integer(5)))).unwrap() {
        Error::Custom(v) => assert!(v.eq(&integer(5))),
        other => panic!("unexpected {:?}", other),
    }
}

#[test]
fn error_reading_failures() {
    assert!(matches!(read_error(obj(vec![("type", text("Custom"))])), Err(DecodeError::MissingField("value"))));
    assert!(matches!(
        read_error(obj(vec![("type", text("ParseError")), ("value", integer(1))])),
        Err(DecodeError::Custom("ParseError cannot have value"))
    ));
    match read_error(obj(vec![("type", text("Nope"))])) {
        Err(DecodeError::UnknownField(f)) => assert_eq!(f, "Nope"),
        other => panic!("unexpected {:?}", other),
    }
    assert!(matches!(read_error(obj(vec![])), Err(DecodeError::MissingField("type"))));
    assert!(matches!(read_error(obj(vec![("type", integer(1))])), Err(DecodeError::InvalidType)));
    match read_error(obj(vec![("kind", text("x"))])) {
        Err(DecodeError::UnknownField(f)) => assert_eq!(f, "kind"),
        other => panic!("unexpected {:?}", other),
    }
    assert!(matches!(read_error(integer(3)), Err(DecodeError::InvalidType)));
}

// Calls and requests

#[test]
fn call_reads_fields() {
    let call = read_call(entries(vec![
        ("duper_rpc", text("0.1")),
        ("id", integer(4)),
        ("method", text("add")),
        ("params", tuple(vec![integer(1), integer(2)])),
    ]))
    .unwrap();
    match call {
        RequestCall::Valid { id, method, params } => {
            assert_eq!(id, Some(RequestId::Integer { identifier: None, inner: 4 }));
            assert_eq!(method, "add");
            assert!(params.eq(&tuple(vec![integer(1), integer(2)])));
        },
        other => panic!("unexpected {:?}", other),
    }
}

#[test]
fn call_without_params_gets_empty_tuple() {
    match read_call(entries(vec![("duper_rpc", text("0.1")), ("method", text("ping"))])).unwrap() {
        RequestCall::Valid { id: None, params, .. } => assert!(params.eq(&tuple(vec![]))),
        other => panic!("unexpected {:?}", other),
    }
}

#[test]
fn malformed_calls_are_invalid_requests() {
    let missing_method = read_call(entries(vec![("duper_rpc", text("0.1")), ("id", text("q"))])).unwrap();
    match missing_method {
        RequestCall::Invalid { id, error: Error::InvalidRequest } => assert_eq!(id, Some(sid("q"))),
        other => panic!("unexpected {:?}", other),
    }
    let wrong_version = read_call(entries(vec![("duper_rpc", text("0.2")), ("method", text("m"))])).unwrap();
    assert!(matches!(wrong_version, RequestCall::Invalid { id: None, error: Error::InvalidRequest }));
    let unknown = read_call(entries(vec![
        ("duper_rpc", text("0.1")),
        ("method", text("m")),
        ("extra", integer(1)),
    ]))
    .unwrap();
    assert!(matches!(unknown, RequestCall::Invalid { .. }));
    assert!(matches!(
        read_call(entries(vec![("duper_rpc", text("0.1")), ("method", integer(1))])),
        Err(DecodeError::InvalidType)
    ));
}

#[test]
fn requests_read_back_single_and_batch() {
    let single = RequestCall::Valid { id: Some(sid("a")), method: "m".to_string(), params: tuple(vec![integer(1)]) };
    let v = encode_request(Request::Single(single)).unwrap();
    match read_request(v) {
        Request::Single(RequestCall::Valid { id, method, params }) => {
            assert_eq!(id, Some(sid("a")));
            assert_eq!(method, "m");
            assert!(params.eq(&tuple(vec![integer(1)])));
        },
        other => panic!("unexpected {:?}", other),
    }
    let batch = Request::Batch(vec![
        RequestCall::Valid { id: None, method: "n".to_string(), params: tuple(vec![]) },
        RequestCall::Valid { id: Some(RequestId::Integer { identifier: None, inner: 9 }), method: "o".to_string(), params: integer(2) },
    ]);
    match read_request(encode_request(batch).unwrap()) {
        Request::Batch(calls) => {
            assert_eq!(calls.len(), 2);
            assert!(matches!(&calls[0], RequestCall::Valid { id: None, method, .. } if method == "n"));
            assert!(matches!(&calls[1], RequestCall::Valid { id: Some(RequestId::Integer { inner: 9, .. }), .. }));
        },
        other => panic!("unexpected {:?}", other),
    }
}

#[test]
fn unreadable_requests() {
    assert!(matches!(
        read_request(integer(1)),
        Request::Single(RequestCall::Invalid { id: None, error: Error::InvalidRequest })
    ));
    let batch = plain(DuperInner::Array(DuperArray::from(vec![integer(1)])));
    assert!(matches!(read_request(batch), Request::Single(RequestCall::Invalid { id: None, .. })));
}

#[test]
fn invalid_calls_cannot_be_written() {
    let invalid = RequestCall::Invalid { id: None, error: Error::InvalidRequest };
    assert_eq!(encode_call(invalid).unwrap_err(), "cannot serialize invalid RPC request");
    let batch = Request::Batch(vec![
        RequestCall::Valid { id: None, method: "n".to_string(), params: tuple(vec![]) },
        RequestCall::Invalid { id: None, error: Error::ParseError },
    ]);
    assert_eq!(encode_request(batch).unwrap_err(), "cannot serialize invalid RPC request");
}

#[test]
fn written_call_layout() {
    let call = RequestCall::Valid { id: Some(sid("x")), method: "m".to_string(), params: tuple(vec![]) };
    let v = encode_call(call).unwrap();
    match v.inner {
        DuperInner::Object(o) => {
            let keys: Vec<String> = o.into_inner().into_iter().map(|(k, _)| k.into_inner()).collect();
            assert_eq!(keys, vec!["duper_rpc", "id", "method", "params"]);
        },
        other => panic!("unexpected {:?}", other),
    }
    assert!(encode_id(RequestId::Integer { identifier: None, inner: 3 }).eq(&integer(3)));
}

// Responses

#[test]
fn responses_read_back() {
    let ok = Ok(ResponseSuccess { id: sid("r"), result: integer(10) });
    match read_response(encode_result(ok)) {
        Ok(Response::Single(Ok(ResponseSuccess { id, result }))) => {
            assert_eq!(id, sid("r"));
            assert!(result.eq(&integer(10)));
        },
        other => panic!("unexpected {:?}", other),
    }
    let err = Err(ResponseError { id: Some(sid("e")), error: Error::MethodNotFound });
    match read_response(encode_response(Response::Batch(vec![err]))) {
        Ok(Response::Batch(results)) => {
            assert_eq!(results.len(), 1);
            assert!(matches!(&results[0], Err(ResponseError { error: Error::MethodNotFound, .. })));
        },
        other => panic!("unexpected {:?}", other),
    }
}

#[test]
fn error_without_id_is_written_with_null_id() {
    let err = Err(ResponseError { id: None, error: Error::ParseError });
    let v = encode_result(err);
    assert!(matches!(read_response(v), Err(DecodeError::InvalidType)));
}

#[test]
fn result_reading_failures() {
    assert!(matches!(
        read_result(entries(vec![("duper_rpc", text("0.1")), ("result", integer(1))])),
        Err(DecodeError::MissingField("id"))
    ));
    assert!(matches!(
        read_result(entries(vec![("id", integer(1)), ("result", integer(1))])),
        Err(DecodeError::MissingField("duper_rpc"))
    ));
    match read_result(entries(vec![("duper_rpc", text("0.2"))])) {
        Err(DecodeError::InvalidValue(v)) => assert_eq!(v, "0.2"),
        other => panic!("unexpected {:?}", other),
    }
    assert!(matches!(
        read_result(entries(vec![("duper_rpc", text("0.1")), ("id", integer(1))])),
        Err(DecodeError::MissingField("result"))
    ));
    assert!(matches!(
        read_result(entries(vec![
            ("duper_rpc", text("0.1")),
            ("id", integer(1)),
            ("result", integer(1)),
            ("error", obj(vec![("type", text("InternalError"))])),
        ])),
        Err(DecodeError::Custom("cannot have both result and error in response"))
    ));
    assert!(matches!(read_response(text("x")), Err(DecodeError::InvalidType)));
}

// Building requests

#[test]
fn builder_makes_calls_with_tuple_params() {
    let request = Request::builder()
        .request::<String>("sum".to_string(), Some(sid("1")), vec![Ok(integer(1)), Ok(integer(2))])
        .build()
        .unwrap();
    match request {
        Request::Single(RequestCall::Valid { id, method, params }) => {
            assert_eq!(id, Some(sid("1")));
            assert_eq!(method, "sum");
            assert!(params.eq(&tuple(vec![integer(1), integer(2)])));
        },
        other => panic!("unexpected {:?}", other),
    }
}

#[test]
fn builder_stops_at_first_failed_argument() {
    let result = Request::builder()
        .request::<String>(
            "sum".to_string(),
            None,
            vec![Ok(integer(1)), Err("first".to_string()), Err("second".to_string())],
        )
        .build();
    assert_eq!(result.unwrap_err(), "first");
}

#[test]
fn builder_batches_calls_in_order() {
    let request = Request::builder()
        .request0::<String>("a".to_string(), None)
        .request0("b".to_string(), Some(sid("2")))
        .build()
        .unwrap();
    match request {
        Request::Batch(calls) => {
            assert_eq!(calls.len(), 2);
            assert!(matches!(&calls[0], RequestCall::Valid { method, .. } if method == "a"));
            assert!(matches!(&calls[1], RequestCall::Valid { method, .. } if method == "b"));
        },
        other => panic!("unexpected {:?}", other),
    }
}

// Serving

#[test]
fn routing_finds_outermost_method_and_its_state() {
    let server = Server::<u32>::new().method("hello", 1u8).method("bye", 2u8).with_state(5u32).method("hello", 3u8);
    assert_eq!(server.route("hello"), Route::Found { method: 0, state: None });
    assert_eq!(server.route("bye"), Route::Found { method: 2, state: Some(1) });
    assert_eq!(server.route("missing"), Route::NotFound);
}

#[test]
fn handler_arguments_from_params() {
    assert_eq!(handler_args(tuple(vec![integer(1)]), 0).unwrap().len(), 0);
    let one = handler_args(tuple(vec![integer(7)]), 1).unwrap();
    assert!(one[0].eq(&integer(7)));
    let bare = handler_args(integer(8), 1).unwrap();
    assert!(bare[0].eq(&integer(8)));
    assert_eq!(handler_args(tuple(vec![integer(1), integer(2)]), 2).unwrap().len(), 2);
    assert!(matches!(handler_args(tuple(vec![integer(1)]), 2), Err(Error::InvalidParams)));
    assert!(matches!(handler_args(integer(1), 3), Err(Error::InvalidParams)));
}

#[test]
fn serving_outcomes() {
    assert!(served_result::<String>(Ok(Ok(integer(1)))).unwrap().eq(&integer(1)));
    assert!(matches!(served_result::<String>(Ok(Err("bad".to_string()))), Err(Error::InternalError)));
    assert!(matches!(served_result::<String>(Err(Error::InvalidParams)), Err(Error::InvalidParams)));
    assert!(response_for(None, Ok(integer(1))).is_none());
    assert!(matches!(response_for(Some(sid("i")), Err(Error::InternalError)), Some(Err(ResponseError { id: Some(_), .. }))));
    match plan_call(RequestCall::Invalid { id: None, error: Error::ParseError }) {
        CallPlan::Reply(Err(ResponseError { id: None, error: Error::ParseError })) => {},
        _ => panic!("invalid call should be answered at once"),
    }
    assert!(matches!(plan_call(RequestCall::Valid { id: None, method: "m".to_string(), params: integer(1) }), CallPlan::Serve { .. }));
}

#[test]
fn responses_skip_notifications() {
    assert!(single_response(None).is_none());
    assert!(batch_response(vec![None, None]).is_none());
    let r = batch_response(vec![
        None,
        Some(Ok(ResponseSuccess { id: sid("a"), result: integer(1) })),
        Some(Err(ResponseError { id: None, error: Error::ParseError })),
    ]);
    match r {
        Some(Response::Batch(v)) => assert_eq!(v.len(), 2),
        _ => panic!("expected a batch"),
    }
}

#[test]
fn repeated_result_fields_are_refused() {
    let result = read_result(entries(vec![
        ("duper_rpc", text("0.1")),
        ("id", integer(1)),
        ("id", integer(2)),
    ]));
    assert!(matches!(result, Err(DecodeError::DuplicateField("id"))));
    let call = read_call(entries(vec![
        ("duper_rpc", text("0.1")),
        ("method", text("m")),
        ("method", text("n")),
    ]))
    .unwrap();
    assert!(matches!(call, RequestCall::Invalid { error: Error::InvalidRequest, .. }));
}

#[test]
fn unknown_methods_are_not_found() {
    let empty = Server::<u32>::new();
    let r = empty.route("anything");
    assert_eq!(r, Route::NotFound);
    assert!(matches!(dispatch(r), Err(Error::MethodNotFound)));
    let one = Server::<u32>::new().method("hello", 1u8);
    assert!(matches!(dispatch(one.route("bye")), Err(Error::MethodNotFound)));
    assert_eq!(dispatch(one.route("hello")).unwrap(), (0, None));
}
