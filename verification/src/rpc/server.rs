//! The Duper RPC server: a stack of method and state layers, and the rules
//! that turn calls and handler outcomes into responses.
use vstd::prelude::*;
use crate::ast::{DuperInner, DuperValue};
use crate::rpc::request::RequestCall;
use crate::rpc::response::{Response, ResponseError, ResponseResult, ResponseSuccess};
use crate::rpc::{Error, RequestId};
use crate::text::str_eq;

verus! {

/// A shared state that a handler asks for.
pub struct State<S>(pub S);

/// A layer of a server, outermost first: a method with its name, or a state.
pub enum Layer {
    Method(Seq<char>),
    State,
}

/// Where a call of a method ends up: nowhere, or at the method layer at the
/// given position (counted from the outermost layer) with the state of the
/// state layer at the given position, if any lies outside it.
#[derive(PartialEq, Eq, Structural, Debug, Clone, Copy)]
pub enum Route {
    NotFound,
    Found { method: usize, state: Option<usize> },
}

/// A route as seen from one layer further out.
pub open spec fn shifted(r: Route) -> Route {
    match r {
        Route::NotFound => Route::NotFound,
        Route::Found { method, state } => Route::Found {
            method: (method + 1) as usize,
            state: match state {
                Some(s) => Some((s + 1) as usize),
                None => None,
            },
        },
    }
}

/// The route of a call of `name`: the outermost method layer with that name
/// answers, and it receives the state of the innermost state layer outside
/// it.
pub open spec fn route_of(layers: Seq<Layer>, name: Seq<char>) -> Route
    decreases layers.len(),
{
    if layers.len() == 0 {
        Route::NotFound
    } else {
        let inner = shifted(route_of(layers.drop_first(), name));
        match layers[0] {
            Layer::Method(n) => if n == name {
                Route::Found { method: 0, state: None }
            } else {
                inner
            },
            Layer::State => match inner {
                Route::Found { method, state: None } => Route::Found { method, state: Some(0) },
                other => other,
            },
        }
    }
}

fn shift(r: Route) -> (s: Route)
    requires
        r matches Route::Found { method, state } ==> method < usize::MAX && (state matches Some(
            st,
        ) ==> st < usize::MAX),
    ensures
        s == shifted(r),
{
    match r {
        Route::NotFound => Route::NotFound,
        Route::Found { method, state } => Route::Found {
            method: method + 1,
            state: match state {
                Some(s) => Some(s + 1),
                None => None,
            },
        },
    }
}

proof fn lemma_route_bounds(layers: Seq<Layer>, name: Seq<char>)
    requires
        layers.len() < usize::MAX,
    ensures
        route_of(layers, name) matches Route::Found { method, state } ==> method < layers.len()
            && (state matches Some(s) ==> s < method),
    decreases layers.len(),
{
    if layers.len() > 0 {
        lemma_route_bounds(layers.drop_first(), name);
    }
}

/// Whether `r` routes a call of `name` as the server promises: to the
/// outermost method layer with that name, with the state of the innermost
/// state layer outside it, if any; and nowhere when no method has that name.
pub open spec fn routes_as_promised(layers: Seq<Layer>, name: Seq<char>, r: Route) -> bool {
    match r {
        Route::NotFound => forall|i: int| 0 <= i < layers.len() ==> #[trigger] layers[i] != Layer::Method(name),
        Route::Found { method, state } => {
            &&& method < layers.len()
            &&& layers[method as int] == Layer::Method(name)
            &&& forall|j: int| 0 <= j < method ==> #[trigger] layers[j] != Layer::Method(name)
            &&& match state {
                None => forall|j: int| 0 <= j < method ==> #[trigger] layers[j] != Layer::State,
                Some(s) => {
                    &&& s < method
                    &&& layers[s as int] == Layer::State
                    &&& forall|j: int| s < j < method ==> #[trigger] layers[j] != Layer::State
                },
            }
        },
    }
}

/// A call of `name` is answered by the outermost method of that name, which
/// receives the state of the innermost state layer outside it; a call of a
/// name that no method has is not found.
pub proof fn lemma_routing(layers: Seq<Layer>, name: Seq<char>)
    requires
        layers.len() < usize::MAX,
    ensures
        routes_as_promised(layers, name, route_of(layers, name)),
    decreases layers.len(),
{
    if layers.len() > 0 {
        let tail = layers.drop_first();
        lemma_routing(tail, name);
        lemma_route_bounds(tail, name);
        assert(forall|j: int| 0 <= j < tail.len() ==> tail[j] == layers[j + 1]);
        match route_of(tail, name) {
            Route::NotFound => {
                assert forall|i: int| 0 < i < layers.len() implies #[trigger] layers[i]
                    != Layer::Method(name) by {
                    assert(layers[i] == tail[i - 1]);
                }
            },
            Route::Found { method, state } => {
                assert forall|j: int| 1 <= j < method + 1 implies #[trigger] layers[j]
                    != Layer::Method(name) by {
                    assert(layers[j] == tail[j - 1]);
                }
                match state {
                    None => {
                        assert forall|j: int| 1 <= j < method + 1 implies #[trigger] layers[j]
                            != Layer::State by {
                            assert(layers[j] == tail[j - 1]);
                        }
                    },
                    Some(s) => {
                        assert forall|j: int| s + 1 < j < method + 1 implies #[trigger] layers[j]
                            != Layer::State by {
                            assert(layers[j] == tail[j - 1]);
                        }
                    },
                }
            },
        }
    }
}

/// Keeps the layer types to this module.
pub trait Sealed {

}

/// A part of a server that can route calls.
pub trait ServerPart: Sealed {
    /// The layers of this part, outermost first.
    spec fn layers(&self) -> Seq<Layer>;

    /// The route of a call of `name`.
    fn route(&self, name: &str) -> (r: Route)
        requires
            self.layers().len() < usize::MAX,
        ensures
            r == route_of(self.layers(), name@),
    ;
}

/// The basis of a Duper RPC server: no methods yet.
pub struct Server<S> {
    marker: core::marker::PhantomData<S>,
}

/// A method layer: a name, its handler, and the layers inside it.
pub struct Method<H, N> {
    name: String,
    handler: H,
    next: N,
}

/// A state layer: the state handed to the methods inside it.
pub struct WithState<S, N> {
    state: S,
    next: N,
}

/// A server turned into a service.
pub struct ServerService<I> {
    inner: I,
}

impl<S> Sealed for Server<S> {

}

impl<H, N> Sealed for Method<H, N> {

}

impl<S, N> Sealed for WithState<S, N> {

}

impl<S> ServerPart for Server<S> {
    open spec fn layers(&self) -> Seq<Layer> {
        Seq::empty()
    }

    fn route(&self, name: &str) -> (r: Route) {
        Route::NotFound
    }
}

impl<H, N: ServerPart> ServerPart for Method<H, N> {
    closed spec fn layers(&self) -> Seq<Layer> {
        seq![Layer::Method(self.name@)] + self.next.layers()
    }

    fn route(&self, name: &str) -> (r: Route) {
        let ghost layers = self.layers();
        assert(layers.drop_first() == self.next.layers());
        if str_eq(self.name.as_str(), name) {
            Route::Found { method: 0, state: None }
        } else {
            let inner = self.next.route(name);
            proof {
                lemma_route_bounds(self.next.layers(), name@);
            }
            shift(inner)
        }
    }
}

impl<S, N: ServerPart> ServerPart for WithState<S, N> {
    closed spec fn layers(&self) -> Seq<Layer> {
        seq![Layer::State] + self.next.layers()
    }

    fn route(&self, name: &str) -> (r: Route) {
        let ghost layers = self.layers();
        assert(layers.drop_first() == self.next.layers());
        let inner = self.next.route(name);
        proof {
            lemma_route_bounds(self.next.layers(), name@);
        }
        match shift(inner) {
            Route::Found { method, state: None } => Route::Found { method, state: Some(0) },
            other => other,
        }
    }
}

impl<S> Server<S> {
    /// A server without methods.
    pub fn new() -> (s: Server<S>)
        ensures
            s.layers() == Seq::<Layer>::empty(),
    {
        Server { marker: core::marker::PhantomData }
    }

    /// Adds a method.
    pub fn method<H>(self, name: &str, handler: H) -> (m: Method<H, Server<S>>)
        ensures
            m.layers() == seq![Layer::Method(name@)] + self.layers(),
            m.spec_handler() == handler,
            m.spec_next() == self,
    {
        Method { name: name.to_owned(), handler, next: self }
    }
}

impl<H, N: ServerPart> Method<H, N> {
    /// Adds a method outside this one.
    pub fn method<H2>(self, name: &str, handler: H2) -> (m: Method<H2, Method<H, N>>)
        ensures
            m.layers() == seq![Layer::Method(name@)] + self.layers(),
            m.spec_handler() == handler,
            m.spec_next() == self,
    {
        Method { name: name.to_owned(), handler, next: self }
    }

    /// Adds a state for all methods defined before it.
    pub fn with_state<S2>(self, state: S2) -> (w: WithState<S2, Method<H, N>>)
        ensures
            w.layers() == seq![Layer::State] + self.layers(),
            w.spec_state() == state,
            w.spec_next() == self,
    {
        WithState { state, next: self }
    }

    /// Turns the server into a service.
    pub fn into_service(self) -> (s: ServerService<Method<H, N>>)
        ensures
            s.spec_inner() == self,
    {
        ServerService { inner: self }
    }

    /// This method's name.
    pub fn name(&self) -> (s: &str)
        ensures
            self.layers()[0] == Layer::Method(s@),
    {
        self.name.as_str()
    }

    /// The handler given to this method.
    pub closed spec fn spec_handler(&self) -> H {
        self.handler
    }

    /// The layers inside this method.
    pub closed spec fn spec_next(&self) -> N {
        self.next
    }

    /// This method's handler.
    pub fn handler(&self) -> (h: &H)
        ensures
            *h == self.spec_handler(),
    {
        &self.handler
    }

    /// The layers inside this method.
    pub fn next(&self) -> (n: &N)
        ensures
            *n == self.spec_next(),
            self.layers() == seq![Layer::Method(self.layers()[0]->Method_0)] + n.layers(),
    {
        &self.next
    }
}

impl<S, N: ServerPart> WithState<S, N> {
    /// Adds a method outside this state.
    pub fn method<H>(self, name: &str, handler: H) -> (m: Method<H, WithState<S, N>>)
        ensures
            m.layers() == seq![Layer::Method(name@)] + self.layers(),
            m.spec_handler() == handler,
            m.spec_next() == self,
    {
        Method { name: name.to_owned(), handler, next: self }
    }

    /// Turns the server into a service.
    pub fn into_service(self) -> (s: ServerService<WithState<S, N>>)
        ensures
            s.spec_inner() == self,
    {
        ServerService { inner: self }
    }

    /// The state given to this layer.
    pub closed spec fn spec_state(&self) -> S {
        self.state
    }

    /// The layers inside this state.
    pub closed spec fn spec_next(&self) -> N {
        self.next
    }

    /// The state of this layer.
    pub fn state(&self) -> (s: &S)
        ensures
            *s == self.spec_state(),
    {
        &self.state
    }

    /// The layers inside this state.
    pub fn next(&self) -> (n: &N)
        ensures
            *n == self.spec_next(),
            self.layers() == seq![Layer::State] + n.layers(),
    {
        &self.next
    }
}

impl<I> ServerService<I> {
    pub closed spec fn spec_inner(&self) -> I {
        self.inner
    }

    /// The server behind the service.
    pub fn inner(&self) -> (i: &I)
        ensures
            *i == self.spec_inner(),
    {
        &self.inner
    }
}

} // verus!

verus! {

/// The arguments that a handler of `arity` parameters takes from a call's
/// parameters: none for no parameters; for one, the only element of a
/// one-element tuple or else the parameters themselves; for more, the
/// elements of a tuple of exactly that length, and otherwise the call's
/// parameters are invalid.
pub open spec fn handler_args_of(params: DuperValue, arity: nat) -> Option<Seq<DuperValue>> {
    if arity == 0 {
        Some(Seq::empty())
    } else if arity == 1 {
        if params.inner is Tuple && params.inner->Tuple_0@.len() == 1 {
            Some(params.inner->Tuple_0@)
        } else {
            Some(seq![params])
        }
    } else if params.inner is Tuple && params.inner->Tuple_0@.len() == arity {
        Some(params.inner->Tuple_0@)
    } else {
        None
    }
}

/// Splits a call's parameters into the arguments of a handler with `arity`
/// parameters; `InvalidParams` when they do not fit.
pub fn handler_args(params: DuperValue, arity: usize) -> (r: Result<Vec<DuperValue>, Error>)
    ensures
        match handler_args_of(params, arity as nat) {
            Some(args) => r matches Ok(v) && v@ == args,
            None => r matches Err(Error::InvalidParams),
        },
{
    if arity == 0 {
        return Ok(Vec::new());
    }
    let is_tuple = match &params.inner {
        DuperInner::Tuple(t) => t.len() == arity || (arity == 1 && t.len() == 1),
        _ => false,
    };
    if is_tuple {
        match params.inner {
            DuperInner::Tuple(t) => Ok(t.into_inner()),
            _ => Err(Error::InvalidParams),
        }
    } else if arity == 1 {
        let mut v = Vec::new();
        v.push(params);
        Ok(v)
    } else {
        Err(Error::InvalidParams)
    }
}

/// Where a call goes once routed: to the method and state layers found, or,
/// when no method layer has the call's name, nowhere, answered with
/// `MethodNotFound`.
pub fn dispatch(route: Route) -> (r: Result<(usize, Option<usize>), Error>)
    ensures
        match route {
            Route::NotFound => r matches Err(Error::MethodNotFound),
            Route::Found { method, state } => r == Ok::<(usize, Option<usize>), Error>(
                (method, state),
            ),
        },
{
    match route {
        Route::NotFound => Err(Error::MethodNotFound),
        Route::Found { method, state } => Ok((method, state)),
    }
}

/// A call of a name that no method layer has is not found, so it is
/// answered with `MethodNotFound`; in particular every call to a server
/// without methods is.
pub proof fn lemma_unknown_name_not_found(layers: Seq<Layer>, name: Seq<char>)
    requires
        layers.len() < usize::MAX,
        forall|i: int| 0 <= i < layers.len() ==> #[trigger] layers[i] != Layer::Method(name),
    ensures
        route_of(layers, name) == Route::NotFound,
{
    lemma_routing(layers, name);
    match route_of(layers, name) {
        Route::Found { method, .. } => {
            assert(layers[method as int] == Layer::Method(name));
        },
        Route::NotFound => {},
    }
}

/// What a method answers once its handler has run: the handler's result as
/// a Duper value, `InternalError` when that result could not be turned into
/// one, or the handler's own error.
pub fn served_result<E>(outcome: Result<Result<DuperValue, E>, Error>) -> (r: Result<DuperValue, Error>)
    ensures
        match outcome {
            Ok(Ok(v)) => r == Ok::<DuperValue, Error>(v),
            Ok(Err(_)) => r matches Err(Error::InternalError),
            Err(e) => r == Err::<DuperValue, Error>(e),
        },
{
    match outcome {
        Ok(Ok(v)) => Ok(v),
        Ok(Err(_)) => Err(Error::InternalError),
        Err(e) => Err(e),
    }
}

/// The response to a served call: with an ID, its success or its error; a
/// notification (no ID) gets no response.
pub fn response_for(id: Option<RequestId>, served: Result<DuperValue, Error>) -> (r: Option<ResponseResult>)
    ensures
        id is None ==> r is None,
        id matches Some(i) ==> match served {
            Ok(v) => r == Some(Ok::<ResponseSuccess, ResponseError>(ResponseSuccess { id: i, result: v })),
            Err(e) => r == Some(Err::<ResponseSuccess, ResponseError>(ResponseError { id: Some(i), error: e })),
        },
{
    match id {
        Some(i) => match served {
            Ok(v) => Some(Ok(ResponseSuccess { id: i, result: v })),
            Err(e) => Some(Err(ResponseError { id: Some(i), error: e })),
        },
        None => None,
    }
}

/// How a call is handled: an invalid call is answered with its error at
/// once; a valid one is served.
pub enum CallPlan {
    Reply(ResponseResult),
    Serve { id: Option<RequestId>, method: String, params: DuperValue },
}

/// Decides how a call is handled.
pub fn plan_call(call: RequestCall) -> (p: CallPlan)
    ensures
        match call {
            RequestCall::Invalid { id, error } => p == CallPlan::Reply(
                Err::<ResponseSuccess, ResponseError>(ResponseError { id, error }),
            ),
            RequestCall::Valid { id, method, params } => p == CallPlan::Serve { id, method, params },
        },
{
    match call {
        RequestCall::Invalid { id, error } => CallPlan::Reply(Err(ResponseError { id, error })),
        RequestCall::Valid { id, method, params } => CallPlan::Serve { id, method, params },
    }
}

/// The results that are present, in order.
pub open spec fn present(results: Seq<Option<ResponseResult>>) -> Seq<ResponseResult>
    decreases results.len(),
{
    if results.len() == 0 {
        Seq::empty()
    } else {
        match results.last() {
            Some(r) => present(results.drop_last()).push(r),
            None => present(results.drop_last()),
        }
    }
}

/// The response to a single call: its result, if it has one.
pub fn single_response(result: Option<ResponseResult>) -> (r: Option<Response>)
    ensures
        match result {
            Some(x) => r == Some(Response::Single(x)),
            None => r is None,
        },
{
    match result {
        Some(x) => Some(Response::Single(x)),
        None => None,
    }
}

/// The response to a batch: the results of the calls that have one, in
/// order, or no response at all when none has.
pub fn batch_response(results: Vec<Option<ResponseResult>>) -> (r: Option<Response>)
    ensures
        present(results@).len() == 0 ==> r is None,
        present(results@).len() > 0 ==> (r matches Some(Response::Batch(v)) && v@ == present(
            results@,
        )),
{
    let mut results = results;
    let ghost all = results@;
    let mut out: Vec<ResponseResult> = Vec::new();
    let n = results.len();
    let mut i: usize = 0;
    while i < n
        invariant
            n == all.len(),
            i <= n,
            results@ == all.skip(i as int),
            out@ == present(all.take(i as int)),
        decreases n - i,
    {
        assert(all.take(i as int + 1).drop_last() == all.take(i as int));
        let item = results.remove(0);
        assert(all.skip(i as int + 1) == all.skip(i as int).remove(0));
        assert(item == all[i as int]);
        match item {
            Some(x) => out.push(x),
            None => {},
        }
        i += 1;
    }
    assert(all.take(n as int) == all);
    if out.len() == 0 {
        None
    } else {
        Some(Response::Batch(out))
    }
}

} // verus!
