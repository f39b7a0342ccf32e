//! Duper RPC: requests, responses and errors, and a layered server.
use vstd::prelude::*;
use crate::ast::{DuperIdentifier, DuperInner, DuperValue};

pub mod decode;
pub mod encode;
pub mod request;
pub mod response;
pub mod roundtrip;
pub mod server;

verus! {

/// The identifier of an RPC request: a string or an integer.
#[allow(inconsistent_fields)]
#[derive(Debug, Clone, PartialEq)]
pub enum RequestId {
    String { identifier: Option<DuperIdentifier>, inner: String },
    Integer { identifier: Option<DuperIdentifier>, inner: i64 },
}

/// The protocol versions this crate speaks.
#[derive(PartialEq, Eq, Structural, Debug, Clone, Copy)]
pub enum DuperRpcVersion {
    DuperRpc01,
}

/// Possible errors when calling a Duper RPC endpoint.
#[derive(Debug)]
pub enum Error {
    /// The RPC request couldn't be parsed.
    ParseError,
    /// The RPC request was invalid.
    InvalidRequest,
    /// The RPC method was not found.
    MethodNotFound,
    /// The parameters are invalid.
    InvalidParams,
    /// Unspecified server error.
    InternalError,
    /// A custom error carrying arbitrary data.
    Custom(DuperValue),
}

/// What a value that is not a request ID was found to be.
pub open spec fn not_an_id_message(inner: DuperInner) -> Seq<char> {
    match inner {
        DuperInner::Object(_) => "expected string or integer, found object"@,
        DuperInner::Array(_) => "expected string or integer, found array"@,
        DuperInner::Tuple(_) => "expected string or integer, found tuple"@,
        DuperInner::Bytes(_) => "expected string or integer, found bytes"@,
        DuperInner::Float(_) => "expected string or integer, found float"@,
        DuperInner::Boolean(_) => "expected string or integer, found boolean"@,
        _ => "expected string or integer, found null"@,
    }
}

impl RequestId {
    /// Whether this ID is the string `s` with the given identifier.
    pub open spec fn is_string(self, identifier: Option<DuperIdentifier>, s: Seq<char>) -> bool {
        self matches RequestId::String { identifier: i, inner } && i == identifier && inner@ == s
    }

    /// Takes the ID out of a string or integer value, keeping its identifier;
    /// any other kind of value is refused with a message naming it.
    pub fn try_from(value: DuperValue) -> (r: Result<RequestId, &'static str>)
        ensures
            value.inner is String ==> r is Ok && r->Ok_0.is_string(
                value.identifier,
                value.inner->String_0@,
            ),
            value.inner is Integer ==> r == Ok::<RequestId, &'static str>(
                RequestId::Integer { identifier: value.identifier, inner: value.inner->Integer_0 },
            ),
            !(value.inner is String || value.inner is Integer) ==> (r matches Err(m) && m@
                == not_an_id_message(value.inner)),
    {
        match value.inner {
            DuperInner::String(s) => Ok(
                RequestId::String { identifier: value.identifier, inner: s.into_inner() },
            ),
            DuperInner::Integer(n) => Ok(RequestId::Integer { identifier: value.identifier, inner: n }),
            DuperInner::Object(_) => Err("expected string or integer, found object"),
            DuperInner::Array(_) => Err("expected string or integer, found array"),
            DuperInner::Tuple(_) => Err("expected string or integer, found tuple"),
            DuperInner::Bytes(_) => Err("expected string or integer, found bytes"),
            DuperInner::Float(_) => Err("expected string or integer, found float"),
            DuperInner::Boolean(_) => Err("expected string or integer, found boolean"),
            DuperInner::Null => Err("expected string or integer, found null"),
        }
    }
}

} // verus!
