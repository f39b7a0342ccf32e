//! Duper RPC responses.
use vstd::prelude::*;
use crate::ast::DuperValue;
use crate::rpc::{Error, RequestId};

verus! {

/// A successful call: the request's ID and the call's result.
#[derive(Debug)]
pub struct ResponseSuccess {
    pub id: RequestId,
    pub result: DuperValue,
}

/// A failed call: the request's ID, if known, and the error.
#[derive(Debug)]
pub struct ResponseError {
    pub id: Option<RequestId>,
    pub error: Error,
}

/// The outcome of one call.
pub type ResponseResult = Result<ResponseSuccess, ResponseError>;

/// An RPC response: one result, or the results of a batch.
#[derive(Debug)]
pub enum Response {
    Single(ResponseResult),
    Batch(Vec<ResponseResult>),
}

impl Response {
    /// The results in the response, in order.
    pub open spec fn results(self) -> Seq<ResponseResult> {
        match self {
            Response::Single(r) => seq![r],
            Response::Batch(v) => v@,
        }
    }

    /// The response's results as a vector.
    pub fn into_results(self) -> (v: Vec<ResponseResult>)
        ensures
            v@ == self.results(),
    {
        match self {
            Response::Single(r) => {
                let mut v = Vec::new();
                v.push(r);
                v
            },
            Response::Batch(v) => v,
        }
    }
}

} // verus!
