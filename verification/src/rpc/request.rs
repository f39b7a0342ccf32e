//! Duper RPC requests and a builder for them.
use vstd::prelude::*;
use crate::ast::{DuperInner, DuperTuple, DuperValue};
use crate::rpc::{Error, RequestId};

verus! {

/// An RPC request: a single call or a batch of calls.
#[derive(Debug)]
pub enum Request {
    Single(RequestCall),
    Batch(Vec<RequestCall>),
}

impl Request {
    /// The calls of the request, in order.
    pub open spec fn calls(self) -> Seq<RequestCall> {
        match self {
            Request::Single(c) => seq![c],
            Request::Batch(cs) => cs@,
        }
    }
}

/// One call in a request.
#[derive(Debug)]
pub enum RequestCall {
    /// A well-formed call; without an ID it is a notification.
    Valid { id: Option<RequestId>, method: String, params: DuperValue },
    /// A call that could not be understood.
    Invalid { id: Option<RequestId>, error: Error },
}

/// Whether `p` is an unnamed tuple of exactly the given values.
pub open spec fn is_params_tuple(p: DuperValue, values: Seq<DuperValue>) -> bool {
    p.identifier is None && p.inner is Tuple && p.inner->Tuple_0@ == values
}

/// The argument values, or the first argument that failed to convert.
pub open spec fn first_failure<E>(args: Seq<Result<DuperValue, E>>) -> Result<Seq<DuperValue>, E>
    decreases args.len(),
{
    if args.len() == 0 {
        Ok(Seq::empty())
    } else {
        match first_failure(args.drop_last()) {
            Err(e) => Err(e),
            Ok(vs) => match args.last() {
                Ok(v) => Ok(vs.push(v)),
                Err(e) => Err(e),
            },
        }
    }
}

/// Whether `call` is the valid call of `method` with ID `id` whose
/// parameters are an unnamed tuple of `values`.
pub open spec fn is_call(
    call: RequestCall,
    id: Option<RequestId>,
    method: Seq<char>,
    values: Seq<DuperValue>,
) -> bool {
    call matches RequestCall::Valid { id: i, method: m, params } && i == id && m@ == method
        && is_params_tuple(params, values)
}

/// Gathers the converted arguments, stopping at the first failure.
fn gather<E>(input: Vec<Result<DuperValue, E>>) -> (r: Result<Vec<DuperValue>, E>)
    ensures
        match first_failure(input@) {
            Ok(vs) => r matches Ok(v) && v@ == vs,
            Err(e) => r == Err::<Vec<DuperValue>, E>(e),
        },
{
    let mut args = input;
    let ghost all = input@;
    let mut out: Vec<DuperValue> = Vec::new();
    let mut i: usize = 0;
    let n = args.len();
    while i < n
        invariant
            all == input@,
            n == all.len(),
            i <= n,
            args@ == all.skip(i as int),
            first_failure(all.take(i as int)) == Ok::<Seq<DuperValue>, E>(out@),
        decreases n - i,
    {
        assert(all.take(i as int + 1).drop_last() == all.take(i as int));
        assert(all.take(i as int + 1).last() == all[i as int]);
        let a = args.remove(0);
        assert(all.skip(i as int + 1) == all.skip(i as int).remove(0));
        assert(a == all[i as int]);
        match a {
            Ok(v) => {
                out.push(v);
            },
            Err(e) => {
                proof {
                    assert(first_failure(all.take(i as int + 1)) == Err::<Seq<DuperValue>, E>(e));
                    lemma_first_failure_sticks(all, i as int + 1);
                }
                return Err(e);
            },
        }
        i += 1;
    }
    assert(all.take(n as int) == all);
    Ok(out)
}

/// Once a prefix fails, every longer prefix fails the same way.
proof fn lemma_first_failure_sticks<E>(args: Seq<Result<DuperValue, E>>, k: int)
    requires
        0 <= k <= args.len(),
        first_failure(args.take(k)) is Err,
    ensures
        first_failure(args) == first_failure(args.take(k)),
    decreases args.len() - k,
{
    if k < args.len() {
        assert(args.take(k + 1).drop_last() == args.take(k));
        lemma_first_failure_sticks(args, k + 1);
    } else {
        assert(args.take(k) == args);
    }
}

fn make_call<E>(method: String, id: Option<RequestId>, args: Vec<Result<DuperValue, E>>) -> (r:
    Result<RequestCall, E>)
    ensures
        match first_failure(args@) {
            Ok(vs) => r matches Ok(call) && is_call(call, id, method@, vs),
            Err(e) => r == Err::<RequestCall, E>(e),
        },
{
    match gather(args) {
        Ok(values) => {
            let params = DuperValue {
                identifier: None,
                inner: DuperInner::Tuple(DuperTuple::from(values)),
            };
            Ok(RequestCall::Valid { id, method, params })
        },
        Err(e) => Err(e),
    }
}

/// Starts building a request.
#[derive(Debug, Default)]
pub struct RequestBuilder;

/// A request of one call so far, or the first conversion failure.
pub struct RequestBuilderSingle<E> {
    call: Result<RequestCall, E>,
}

/// A batch of calls so far, or the first conversion failure.
pub struct RequestBuilderBatch<E> {
    calls: Result<Vec<RequestCall>, E>,
}

impl Request {
    /// Starts building a request.
    pub fn builder() -> RequestBuilder {
        RequestBuilder::new()
    }
}

impl RequestBuilder {
    /// Starts building a request.
    pub fn new() -> RequestBuilder {
        RequestBuilder
    }

    /// A call of `method` without arguments.
    pub fn request0<E>(self, method: String, id: Option<RequestId>) -> (b: RequestBuilderSingle<E>)
        ensures
            b.spec_call() matches Ok(call) && is_call(call, id, method@, Seq::empty()),
    {
        let b = self.request(method, id, Vec::new());
        proof {
            assert(first_failure(Seq::<Result<DuperValue, E>>::empty()) == Ok::<
                Seq<DuperValue>,
                E,
            >(Seq::empty()));
        }
        b
    }

    /// A call of `method` with the given converted arguments; the first
    /// argument that failed to convert fails the request.
    pub fn request<E>(self, method: String, id: Option<RequestId>, args: Vec<Result<DuperValue, E>>) -> (b:
        RequestBuilderSingle<E>)
        ensures
            match first_failure(args@) {
                Ok(vs) => b.spec_call() matches Ok(call) && is_call(call, id, method@, vs),
                Err(e) => b.spec_call() == Err::<RequestCall, E>(e),
            },
    {
        RequestBuilderSingle { call: make_call(method, id, args) }
    }
}

impl<E> RequestBuilderSingle<E> {
    /// The call built so far, or the failure.
    pub closed spec fn spec_call(&self) -> Result<RequestCall, E> {
        self.call
    }

    /// The single-call request, or the failure.
    pub fn build(self) -> (r: Result<Request, E>)
        ensures
            match self.spec_call() {
                Ok(c) => r == Ok::<Request, E>(Request::Single(c)),
                Err(e) => r == Err::<Request, E>(e),
            },
    {
        match self.call {
            Ok(c) => Ok(Request::Single(c)),
            Err(e) => Err(e),
        }
    }

    /// Adds a call of `method` without arguments, making a batch.
    pub fn request0(self, method: String, id: Option<RequestId>) -> (b: RequestBuilderBatch<E>)
        ensures
            match self.spec_call() {
                Ok(c) => b.spec_calls() matches Ok(v) && v.len() == 2 && v[0] == c && is_call(
                    v[1],
                    id,
                    method@,
                    Seq::empty(),
                ),
                Err(e) => b.spec_calls() == Err::<Seq<RequestCall>, E>(e),
            },
    {
        let b = self.request(method, id, Vec::new());
        proof {
            assert(first_failure(Seq::<Result<DuperValue, E>>::empty()) == Ok::<
                Seq<DuperValue>,
                E,
            >(Seq::empty()));
        }
        b
    }

    /// Adds a call of `method` with converted arguments, making a batch; an
    /// earlier failure, or the first failed argument, fails the batch.
    pub fn request(self, method: String, id: Option<RequestId>, args: Vec<Result<DuperValue, E>>) -> (b:
        RequestBuilderBatch<E>)
        ensures
            match self.spec_call() {
                Ok(c) => match first_failure(args@) {
                    Ok(vs) => b.spec_calls() matches Ok(v) && v.len() == 2 && v[0] == c && is_call(
                        v[1],
                        id,
                        method@,
                        vs,
                    ),
                    Err(e) => b.spec_calls() == Err::<Seq<RequestCall>, E>(e),
                },
                Err(e) => b.spec_calls() == Err::<Seq<RequestCall>, E>(e),
            },
    {
        match self.call {
            Ok(call) => match make_call(method, id, args) {
                Ok(next) => {
                    let mut calls = Vec::new();
                    calls.push(call);
                    calls.push(next);
                    RequestBuilderBatch { calls: Ok(calls) }
                },
                Err(e) => RequestBuilderBatch { calls: Err(e) },
            },
            Err(e) => RequestBuilderBatch { calls: Err(e) },
        }
    }
}

impl<E> RequestBuilderBatch<E> {
    /// The calls gathered so far, or the failure.
    pub closed spec fn spec_calls(&self) -> Result<Seq<RequestCall>, E> {
        match self.calls {
            Ok(v) => Ok(v@),
            Err(e) => Err(e),
        }
    }

    /// The batch request, or the failure.
    pub fn build(self) -> (r: Result<Request, E>)
        ensures
            match self.spec_calls() {
                Ok(cs) => r matches Ok(Request::Batch(v)) && v@ == cs,
                Err(e) => r == Err::<Request, E>(e),
            },
    {
        match self.calls {
            Ok(v) => Ok(Request::Batch(v)),
            Err(e) => Err(e),
        }
    }

    /// Adds a call of `method` without arguments.
    pub fn request0(self, method: String, id: Option<RequestId>) -> (b: RequestBuilderBatch<E>)
        ensures
            match self.spec_calls() {
                Ok(cs) => b.spec_calls() matches Ok(v) && v.len() == cs.len() + 1 && v.take(
                    cs.len() as int,
                ) == cs && is_call(v.last(), id, method@, Seq::empty()),
                Err(e) => b.spec_calls() == Err::<Seq<RequestCall>, E>(e),
            },
    {
        let b = self.request(method, id, Vec::new());
        proof {
            assert(first_failure(Seq::<Result<DuperValue, E>>::empty()) == Ok::<
                Seq<DuperValue>,
                E,
            >(Seq::empty()));
        }
        b
    }

    /// Adds a call of `method` with converted arguments; an earlier failure,
    /// or the first failed argument, fails the batch.
    pub fn request(self, method: String, id: Option<RequestId>, args: Vec<Result<DuperValue, E>>) -> (b:
        RequestBuilderBatch<E>)
        ensures
            match self.spec_calls() {
                Ok(cs) => match first_failure(args@) {
                    Ok(vs) => b.spec_calls() matches Ok(v) && v.len() == cs.len() + 1 && v.take(
                        cs.len() as int,
                    ) == cs && is_call(v.last(), id, method@, vs),
                    Err(e) => b.spec_calls() == Err::<Seq<RequestCall>, E>(e),
                },
                Err(e) => b.spec_calls() == Err::<Seq<RequestCall>, E>(e),
            },
    {
        match self.calls {
            Ok(mut calls) => match make_call(method, id, args) {
                Ok(next) => {
                    let ghost before = calls@;
                    calls.push(next);
                    assert(calls@.take(before.len() as int) == before);
                    RequestBuilderBatch { calls: Ok(calls) }
                },
                Err(e) => RequestBuilderBatch { calls: Err(e) },
            },
            Err(e) => RequestBuilderBatch { calls: Err(e) },
        }
    }
}

} // verus!
