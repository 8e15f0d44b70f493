//! The decisions of a plugin's RPC session with the host.
//!
//! A session keeps the functions the plugin offers, each under its function
//! id ([`Functions`]), and the requests that wait for their responses, each
//! under its invocation id ([`Invocations`]). The receive loop hands every
//! incoming message to [`step`], which says what to do with it; the waiting
//! requests interpret their responses with the `expect_*` functions.
use crate::ids::{FunctionId, InvocationId, PluginId};
use crate::proto::{
    FunctionCalled, FunctionResult, InvocationResponse, InvocationResponseData, PluginInfo,
    StewRpcCall, StewRpcMessage,
};
use crate::table::Table;
use serde_json::Value;
use vstd::prelude::*;

verus! {

/// The ways in which a session request fails.
#[derive(Debug)]
pub enum Error {
    /// The connection to the host failed; the text describes how.
    Connection(String),
    /// The session went away before the response arrived.
    InvocationCanceled,
    /// The host answered that the request failed.
    InvocationFailed(Value),
    /// The host answered with a response of another kind than the request expects.
    UnexpectedInvocationResponse(InvocationResponseData),
    /// A value did not have the expected shape; the text describes how.
    Serde(String),
    /// A function considered infallible returned an error anyway.
    InfallibleFunctionFailed(Value),
}

/// The result a load request gets from its response.
pub open spec fn plugin_loaded_result(data: InvocationResponseData) -> Result<PluginInfo, Error> {
    match data {
        InvocationResponseData::PluginLoaded { plugin_id, version } => Ok(
            PluginInfo { plugin_id, version },
        ),
        InvocationResponseData::InvocationFailed(err) => Err(Error::InvocationFailed(err)),
        other => Err(Error::UnexpectedInvocationResponse(other)),
    }
}

/// The result a function-id request gets from its response.
pub open spec fn function_id_result(data: InvocationResponseData) -> Result<FunctionId, Error> {
    match data {
        InvocationResponseData::GotFunctionId(id) => Ok(id),
        InvocationResponseData::InvocationFailed(err) => Err(Error::InvocationFailed(err)),
        other => Err(Error::UnexpectedInvocationResponse(other)),
    }
}

/// The result a function call gets from its response.
pub open spec fn function_returned_result(data: InvocationResponseData) -> Result<
    FunctionResult,
    Error,
> {
    match data {
        InvocationResponseData::FunctionReturned(result) => Ok(result),
        InvocationResponseData::InvocationFailed(err) => Err(Error::InvocationFailed(err)),
        other => Err(Error::UnexpectedInvocationResponse(other)),
    }
}

/// Reads the response to a load request: the loaded plugin, the host's
/// failure, or a response of an unexpected kind.
pub fn expect_plugin_loaded(data: InvocationResponseData) -> (r: Result<PluginInfo, Error>)
    ensures
        r == plugin_loaded_result(data),
{
    match data {
        InvocationResponseData::PluginLoaded { plugin_id, version } => Ok(
            PluginInfo { plugin_id, version },
        ),
        InvocationResponseData::InvocationFailed(err) => Err(Error::InvocationFailed(err)),
        other => Err(Error::UnexpectedInvocationResponse(other)),
    }
}

/// Reads the response to a function-id request.
pub fn expect_function_id(data: InvocationResponseData) -> (r: Result<FunctionId, Error>)
    ensures
        r == function_id_result(data),
{
    match data {
        InvocationResponseData::GotFunctionId(id) => Ok(id),
        InvocationResponseData::InvocationFailed(err) => Err(Error::InvocationFailed(err)),
        other => Err(Error::UnexpectedInvocationResponse(other)),
    }
}

/// Reads the response to a function call.
pub fn expect_function_returned(data: InvocationResponseData) -> (r: Result<FunctionResult, Error>)
    ensures
        r == function_returned_result(data),
{
    match data {
        InvocationResponseData::FunctionReturned(result) => Ok(result),
        InvocationResponseData::InvocationFailed(err) => Err(Error::InvocationFailed(err)),
        other => Err(Error::UnexpectedInvocationResponse(other)),
    }
}

/// What the receive loop got from the connection.
#[derive(Debug)]
pub enum Incoming {
    /// A message from the host.
    Message(StewRpcMessage),
    /// Receiving failed; the text describes how.
    Failed(String),
    /// The connection closed.
    Closed,
}

/// What the receive loop does next.
#[derive(Debug)]
pub enum Reaction<S> {
    /// Run the function registered under `function_id` on `args`; where
    /// `reply_to` names a caller and an invocation, send the outcome back.
    CallFunction {
        function_id: FunctionId,
        args: Value,
        reply_to: Option<(PluginId, InvocationId)>,
    },
    /// No function is registered under `function_id`: report it and go on.
    FunctionNotFound { function_id: FunctionId },
    /// Hand `data` to the request that waited through `sender`.
    Deliver { sender: S, data: InvocationResponseData },
    /// No request waits for `invocation_id`: drop the response and go on.
    NoWaiter { invocation_id: InvocationId },
    /// Report the failure and go on.
    ReceiveFailed(String),
    /// The connection is gone: stop.
    Stop,
}

/// Where the answer to a call goes: nowhere when the caller waits for none.
pub open spec fn reply_target(call: FunctionCalled) -> Option<(PluginId, InvocationId)> {
    match call.invocation_id {
        Some(i) => Some((call.caller_id, i)),
        None => None,
    }
}

/// The step of the receive loop: from the registered functions, the waiting
/// requests and what came in, the waiting requests afterwards and what to do.
pub open spec fn react<F, S>(
    functions: Map<u128, F>,
    waiting: Map<u128, S>,
    incoming: Incoming,
) -> (Map<u128, S>, Reaction<S>) {
    match incoming {
        Incoming::Message(StewRpcMessage::FunctionCalled(call)) => {
            if functions.contains_key(call.internal_id.0) {
                (
                    waiting,
                    Reaction::CallFunction {
                        function_id: call.internal_id,
                        args: call.args,
                        reply_to: reply_target(call),
                    },
                )
            } else {
                (waiting, Reaction::FunctionNotFound { function_id: call.internal_id })
            }
        },
        Incoming::Message(StewRpcMessage::InvocationResponse(response)) => {
            let id = response.invocation_id.0;
            if waiting.contains_key(id) {
                (waiting.remove(id), Reaction::Deliver { sender: waiting[id], data: response.kind })
            } else {
                (waiting, Reaction::NoWaiter { invocation_id: response.invocation_id })
            }
        },
        Incoming::Failed(e) => (waiting, Reaction::ReceiveFailed(e)),
        Incoming::Closed => (waiting, Reaction::Stop),
    }
}

/// The call that answers a caller with a function's outcome, if the caller waits.
pub open spec fn reply_call(
    reply_to: Option<(PluginId, InvocationId)>,
    outcome: Result<Value, Value>,
) -> Option<StewRpcCall> {
    match reply_to {
        Some((caller_id, invocation_id)) => Some(
            StewRpcCall::FunctionReturn {
                caller_id,
                return_value: match outcome {
                    Ok(v) => FunctionResult::Returned(v),
                    Err(e) => FunctionResult::Failed(e),
                },
                invocation_id,
            },
        ),
        None => None,
    }
}

/// A response reaches the request that waits for it: after a request starts
/// to wait under an id that no request waited under, the response to that id
/// is handed to it, and the waiting requests are as before.
pub proof fn lemma_response_reaches_waiter<F, S>(
    functions: Map<u128, F>,
    waiting: Map<u128, S>,
    invocation_id: InvocationId,
    sender: S,
    data: InvocationResponseData,
)
    requires
        !waiting.contains_key(invocation_id.0),
    ensures
        react(
            functions,
            waiting.insert(invocation_id.0, sender),
            Incoming::Message(
                StewRpcMessage::InvocationResponse(
                    InvocationResponse { invocation_id, kind: data },
                ),
            ),
        ) == (waiting, Reaction::Deliver { sender, data }),
{
    assert(waiting.insert(invocation_id.0, sender).remove(invocation_id.0) =~= waiting);
}

/// A response is handed over at most once: a second response to the same
/// id finds no request waiting and changes nothing.
pub proof fn lemma_response_delivered_once<F, S>(
    functions: Map<u128, F>,
    waiting: Map<u128, S>,
    first: InvocationResponse,
    second: InvocationResponse,
)
    requires
        first.invocation_id == second.invocation_id,
    ensures
        ({
            let after = react(
                functions,
                waiting,
                Incoming::Message(StewRpcMessage::InvocationResponse(first)),
            ).0;
            react(functions, after, Incoming::Message(StewRpcMessage::InvocationResponse(second)))
                == (after, Reaction::<S>::NoWaiter { invocation_id: second.invocation_id })
        }),
{
}

/// A request that stops waiting without a response leaves the waiting
/// requests as they were before it started, if none waited under its id.
pub proof fn lemma_finish_undoes_begin<S>(waiting: Map<u128, S>, invocation_id: InvocationId, sender: S)
    requires
        !waiting.contains_key(invocation_id.0),
    ensures
        waiting.insert(invocation_id.0, sender).remove(invocation_id.0) == waiting,
{
    assert(waiting.insert(invocation_id.0, sender).remove(invocation_id.0) =~= waiting);
}

/// A call of a registered function is run; a call of any other id is
/// reported as not found. Neither changes the waiting requests.
pub proof fn lemma_registered_function_runs<F, S>(
    functions: Map<u128, F>,
    waiting: Map<u128, S>,
    function_id: FunctionId,
    function: F,
    call: FunctionCalled,
)
    ensures
        call.internal_id == function_id ==> react(
            functions.insert(function_id.0, function),
            waiting,
            Incoming::Message(StewRpcMessage::FunctionCalled(call)),
        ) == (
            waiting,
            Reaction::<S>::CallFunction {
                function_id,
                args: call.args,
                reply_to: reply_target(call),
            },
        ),
        !functions.contains_key(call.internal_id.0) ==> react(
            functions,
            waiting,
            Incoming::Message(StewRpcMessage::FunctionCalled(call)),
        ) == (waiting, Reaction::<S>::FunctionNotFound { function_id: call.internal_id }),
{
}

/// A failed or closed connection changes nothing; only a close stops the loop.
pub proof fn lemma_only_close_stops<F, S>(
    functions: Map<u128, F>,
    waiting: Map<u128, S>,
    incoming: Incoming,
)
    ensures
        react(functions, waiting, incoming).1 is Stop <==> incoming is Closed,
        !(incoming is Message) ==> react(functions, waiting, incoming).0 == waiting,
{
}

/// Reading a response never alters what it carries: a loaded plugin's id and
/// version, a function id and a function's result come through unchanged,
/// the host's failure becomes `InvocationFailed` with its value, and every
/// other kind is reported as unexpected together with the response itself.
pub proof fn lemma_responses_read_unchanged(
    plugin_id: PluginId,
    version: semver::Version,
    function_id: FunctionId,
    result: FunctionResult,
    err: Value,
)
    ensures
        plugin_loaded_result(InvocationResponseData::PluginLoaded { plugin_id, version }) == Ok::<
            PluginInfo,
            Error,
        >(PluginInfo { plugin_id, version }),
        function_id_result(InvocationResponseData::GotFunctionId(function_id)) == Ok::<
            FunctionId,
            Error,
        >(function_id),
        function_returned_result(InvocationResponseData::FunctionReturned(result)) == Ok::<
            FunctionResult,
            Error,
        >(result),
        plugin_loaded_result(InvocationResponseData::InvocationFailed(err)) == Err::<
            PluginInfo,
            Error,
        >(Error::InvocationFailed(err)),
        function_id_result(InvocationResponseData::InvocationFailed(err)) == Err::<FunctionId, Error>(
            Error::InvocationFailed(err),
        ),
        function_returned_result(InvocationResponseData::InvocationFailed(err)) == Err::<
            FunctionResult,
            Error,
        >(Error::InvocationFailed(err)),
{
}

/// A response succeeds exactly when it is of the kind the request expects;
/// a response of another kind, other than a failure, comes back whole.
pub proof fn lemma_response_kind_decides(data: InvocationResponseData)
    ensures
        plugin_loaded_result(data) is Ok <==> data is PluginLoaded,
        function_id_result(data) is Ok <==> data is GotFunctionId,
        function_returned_result(data) is Ok <==> data is FunctionReturned,
        !(data is PluginLoaded) && !(data is InvocationFailed) ==> plugin_loaded_result(data)
            == Err::<PluginInfo, Error>(Error::UnexpectedInvocationResponse(data)),
        !(data is GotFunctionId) && !(data is InvocationFailed) ==> function_id_result(data)
            == Err::<FunctionId, Error>(Error::UnexpectedInvocationResponse(data)),
        !(data is FunctionReturned) && !(data is InvocationFailed) ==> function_returned_result(data)
            == Err::<FunctionResult, Error>(Error::UnexpectedInvocationResponse(data)),
{
}

/// A call of a registered function runs that function on the call's
/// arguments, and the answer goes back to the caller under the invocation id
/// the call carries, unchanged; a call that carries no invocation id gets no
/// answer. The waiting requests stay as they were.
pub proof fn lemma_call_answers_its_caller<F, S>(
    functions: Map<u128, F>,
    waiting: Map<u128, S>,
    call: FunctionCalled,
)
    requires
        functions.contains_key(call.internal_id.0),
    ensures
        react(functions, waiting, Incoming::Message(StewRpcMessage::FunctionCalled(call))).0 == waiting,
        react(functions, waiting, Incoming::Message(StewRpcMessage::FunctionCalled(call))).1 matches
            Reaction::CallFunction { function_id, args, reply_to } && function_id == call.internal_id
            && args == call.args && (forall|i: InvocationId|
            call.invocation_id == Some(i) ==> reply_to == Some((call.caller_id, i))) && (
        call.invocation_id is None ==> reply_to is None),
{
}

/// The answer to a caller carries the caller and the invocation id it was
/// given, unchanged, and the function's outcome with its success or failure
/// kept; without a caller there is no answer.
pub proof fn lemma_reply_carries_outcome(
    caller_id: PluginId,
    invocation_id: InvocationId,
    outcome: Result<Value, Value>,
)
    ensures
        reply_call(None, outcome) is None,
        reply_call(Some((caller_id, invocation_id)), outcome) matches Some(
            StewRpcCall::FunctionReturn { caller_id: c, return_value, invocation_id: i },
        ) && c == caller_id && i == invocation_id && (forall|v: Value|
            outcome == Ok::<Value, Value>(v) ==> return_value == FunctionResult::Returned(v)) && (
        forall|e: Value| outcome == Err::<Value, Value>(e) ==> return_value == FunctionResult::Failed(e)),
{
}

/// Registering under an id that no function has keeps every function that
/// was registered, and two registrations made one after the other under
/// such ids get different ids.
pub proof fn lemma_fresh_registration_keeps_functions<F>(
    functions: Map<u128, F>,
    first: u128,
    f: F,
    second: u128,
)
    requires
        !functions.contains_key(first),
        !functions.insert(first, f).contains_key(second),
    ensures
        first != second,
        forall|k: u128| #[trigger]
            functions.contains_key(k) ==> functions.insert(first, f).contains_key(k)
                && functions.insert(first, f)[k] == functions[k],
        functions.insert(first, f)[first] == f,
{
}

/// A response goes to the request waiting under its invocation id, with
/// its data unchanged, and that request stops waiting; a response that no
/// request waits for is dropped under its own id; a receive failure is
/// reported with its text. Only the answered request leaves the waiting
/// requests.
pub proof fn lemma_response_and_failure_outcomes<F, S>(
    functions: Map<u128, F>,
    waiting: Map<u128, S>,
    response: InvocationResponse,
    failure: String,
)
    ensures
        waiting.contains_key(response.invocation_id.0) ==> react(
            functions,
            waiting,
            Incoming::Message(StewRpcMessage::InvocationResponse(response)),
        ) == (
            waiting.remove(response.invocation_id.0),
            Reaction::Deliver { sender: waiting[response.invocation_id.0], data: response.kind },
        ),
        !waiting.contains_key(response.invocation_id.0) ==> react(
            functions,
            waiting,
            Incoming::Message(StewRpcMessage::InvocationResponse(response)),
        ) == (waiting, Reaction::<S>::NoWaiter { invocation_id: response.invocation_id }),
        react(functions, waiting, Incoming::Failed(failure)) == (
            waiting,
            Reaction::<S>::ReceiveFailed(failure),
        ),
        react(functions, waiting, Incoming::Closed) == (waiting, Reaction::<S>::Stop),
{
}

/// The functions a plugin offers, each under its function id. `F` is what
/// runs a function; it is generic (a closure in practice), so the functions
/// are held in the library's own table, whose contents the verifier can
/// describe.
#[verifier::reject_recursive_types(F)]
pub struct Functions<F> {
    table: Table<u128, F>,
}

impl<F> View for Functions<F> {
    type V = Map<u128, F>;

    closed spec fn view(&self) -> Map<u128, F> {
        self.table@
    }
}

impl<F> Functions<F> {
    pub closed spec fn wf(&self) -> bool {
        self.table.wf()
    }

    /// No functions.
    pub fn new() -> (r: Self)
        ensures
            r.wf(),
            r@ == Map::<u128, F>::empty(),
    {
        Functions { table: Table::new() }
    }

    /// Registers `function` under `function_id` and returns the call that
    /// announces it to the host under `name`; a function registered under
    /// that id before is replaced.
    pub fn register_function_as(&mut self, function_id: FunctionId, name: String, function: F) -> (r:
        StewRpcCall)
        requires
            old(self).wf(),
        ensures
            final(self).wf(),
            final(self)@ == old(self)@.insert(function_id.0, function),
            r == (StewRpcCall::RegisterFunction { fn_name: name, internal_id: function_id }),
    {
        self.table.insert(function_id.0, function);
        StewRpcCall::RegisterFunction { fn_name: name, internal_id: function_id }
    }

    /// Registers `function` under a new function id, drawn at random, that
    /// no registered function has; returns the call that announces it to the
    /// host under `name`.
    pub fn register_function(&mut self, name: String, function: F) -> (r: StewRpcCall)
        requires
            old(self).wf(),
        ensures
            final(self).wf(),
            r matches StewRpcCall::RegisterFunction { fn_name, internal_id } && fn_name == name
                && internal_id.0 & crate::ids::v4_mask() == crate::ids::v4_bits()
                && !old(self)@.contains_key(internal_id.0)
                && final(self)@ == old(self)@.insert(internal_id.0, function),
    {
        let used = self.table.keys();
        let function_id = FunctionId(crate::ids::fresh_id(&used));
        self.register_function_as(function_id, name, function)
    }

    /// The function registered under `function_id`.
    pub fn function(&self, function_id: FunctionId) -> (r: Option<&F>)
        requires
            self.wf(),
        ensures
            match r {
                Some(f) => self@.contains_key(function_id.0) && *f == self@[function_id.0],
                None => !self@.contains_key(function_id.0),
            },
    {
        self.table.get(&function_id.0)
    }
}

/// The requests that wait for their responses, each under its invocation
/// id. `S` is what a waiting request is reached by (a channel end in
/// practice), held in the library's own table like the functions.
#[verifier::reject_recursive_types(S)]
pub struct Invocations<S> {
    table: Table<u128, S>,
}

impl<S> View for Invocations<S> {
    type V = Map<u128, S>;

    closed spec fn view(&self) -> Map<u128, S> {
        self.table@
    }
}

impl<S> Invocations<S> {
    pub closed spec fn wf(&self) -> bool {
        self.table.wf()
    }

    /// No waiting requests.
    pub fn new() -> (r: Self)
        ensures
            r.wf(),
            r@ == Map::<u128, S>::empty(),
    {
        Invocations { table: Table::new() }
    }

    /// A request starts to wait for the response to `invocation_id`; one
    /// that waited for it before is replaced.
    pub fn begin_invocation(&mut self, invocation_id: InvocationId, sender: S)
        requires
            old(self).wf(),
        ensures
            final(self).wf(),
            final(self)@ == old(self)@.insert(invocation_id.0, sender),
    {
        self.table.insert(invocation_id.0, sender);
    }

    /// The request for `invocation_id` stops waiting.
    pub fn finish_invocation(&mut self, invocation_id: InvocationId)
        requires
            old(self).wf(),
        ensures
            final(self).wf(),
            final(self)@ == old(self)@.remove(invocation_id.0),
    {
        self.table.remove(&invocation_id.0);
    }
}

/// Decides what the receive loop does with what came in: runs registered
/// functions, hands responses to the requests that wait for them, reports
/// the rest, and stops when the connection closes.
pub fn step<F, S>(functions: &Functions<F>, invocations: &mut Invocations<S>, incoming: Incoming) -> (r:
    Reaction<S>)
    requires
        functions.wf(),
        old(invocations).wf(),
    ensures
        final(invocations).wf(),
        (final(invocations)@, r) == react(functions@, old(invocations)@, incoming),
{
    match incoming {
        Incoming::Message(StewRpcMessage::FunctionCalled(call)) => {
            let known = match functions.function(call.internal_id) {
                Some(_) => true,
                None => false,
            };
            if known {
                let reply_to = match call.invocation_id {
                    Some(i) => Some((call.caller_id, i)),
                    None => None,
                };
                Reaction::CallFunction { function_id: call.internal_id, args: call.args, reply_to }
            } else {
                Reaction::FunctionNotFound { function_id: call.internal_id }
            }
        },
        Incoming::Message(StewRpcMessage::InvocationResponse(response)) => {
            match invocations.table.remove(&response.invocation_id.0) {
                Some(sender) => Reaction::Deliver { sender, data: response.kind },
                None => Reaction::NoWaiter { invocation_id: response.invocation_id },
            }
        },
        Incoming::Failed(e) => Reaction::ReceiveFailed(e),
        Incoming::Closed => Reaction::Stop,
    }
}

/// The call that answers a caller with a function's outcome; `None` when
/// the caller waits for no answer.
pub fn function_reply(reply_to: Option<(PluginId, InvocationId)>, outcome: Result<Value, Value>) -> (r:
    Option<StewRpcCall>)
    ensures
        r == reply_call(reply_to, outcome),
{
    match reply_to {
        Some((caller_id, invocation_id)) => Some(
            StewRpcCall::FunctionReturn {
                caller_id,
                return_value: FunctionResult::from_outcome(outcome),
                invocation_id,
            },
        ),
        None => None,
    }
}

} // verus!
