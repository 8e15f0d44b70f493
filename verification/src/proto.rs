//! The messages that a plugin and the host exchange.
//!
//! JSON payloads, versions and version requirements are carried through
//! unread: the library declares those outside types and never looks inside.
use crate::ids::{FunctionId, InvocationId, PluginId};
use serde_json::Value;
use semver::{Version, VersionReq};
use vstd::prelude::*;

verus! {

/// A JSON value (`serde_json::Value`), carried through unread.
#[verifier::external_type_specification]
#[verifier::external_body]
pub struct ExValue(serde_json::Value);

/// A semantic version (`semver::Version`), carried through unread.
#[verifier::external_type_specification]
#[verifier::external_body]
pub struct ExVersion(semver::Version);

/// A version requirement (`semver::VersionReq`), carried through unread.
#[verifier::external_type_specification]
#[verifier::external_body]
pub struct ExVersionReq(semver::VersionReq);

/// What a plugin function answered: a value, or an error value.
#[derive(Debug)]
pub enum FunctionResult {
    Returned(Value),
    Failed(Value),
}

impl FunctionResult {
    /// The answer that a function's outcome stands for.
    pub fn from_outcome(outcome: Result<Value, Value>) -> (r: FunctionResult)
        ensures
            match outcome {
                Ok(v) => r == FunctionResult::Returned(v),
                Err(e) => r == FunctionResult::Failed(e),
            },
    {
        match outcome {
            Ok(v) => FunctionResult::Returned(v),
            Err(e) => FunctionResult::Failed(e),
        }
    }
}

/// What the host answers to a request that waits for its response.
#[derive(Debug)]
pub enum InvocationResponseData {
    PluginLoaded { plugin_id: PluginId, version: Version },
    GotFunctionId(FunctionId),
    FunctionReturned(FunctionResult),
    InvocationFailed(Value),
}

/// The answer to the request `invocation_id`.
#[derive(Debug)]
pub struct InvocationResponse {
    pub invocation_id: InvocationId,
    pub kind: InvocationResponseData,
}

/// Another plugin calls one of this plugin's functions.
#[derive(Debug)]
pub struct FunctionCalled {
    /// The id under which this plugin registered the function.
    pub internal_id: FunctionId,
    pub args: Value,
    /// Where the caller waits for the answer; `None` when it waits for none.
    pub invocation_id: Option<InvocationId>,
    pub caller_id: PluginId,
}

/// A message from the host to a plugin.
#[derive(Debug)]
pub enum StewRpcMessage {
    FunctionCalled(FunctionCalled),
    InvocationResponse(InvocationResponse),
}

/// A message from a plugin to the host.
#[derive(Debug)]
#[allow(inconsistent_fields)]
pub enum StewRpcCall {
    LoadPlugin { name: String, version_requirement: VersionReq, invocation_id: InvocationId },
    GetFunction { plugin_id: PluginId, fn_name: String, invocation_id: InvocationId },
    RegisterFunction { fn_name: String, internal_id: FunctionId },
    CallFunction { fn_id: FunctionId, args: Value, invocation_id: Option<InvocationId> },
    FunctionReturn { caller_id: PluginId, return_value: FunctionResult, invocation_id: InvocationId },
    PluginReady,
}

/// A loaded plugin.
#[derive(Debug)]
pub struct PluginInfo {
    pub plugin_id: PluginId,
    pub version: Version,
}

} // verus!
