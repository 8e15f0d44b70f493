use bazed::ids::{FunctionId, InvocationId, PluginId};
use bazed::proto::{
    FunctionCalled, FunctionResult, InvocationResponse, InvocationResponseData, StewRpcCall,
    StewRpcMessage,
};
use bazed::stew_rpc::{
    expect_function_id, expect_function_returned, expect_plugin_loaded, function_reply, step, Error,
    Functions, Incoming, Invocations, Reaction,
};
use serde_json::Value;

fn response(id: u128, kind: InvocationResponseData) -> Incoming {
    Incoming::Message(StewRpcMessage::InvocationResponse(InvocationResponse {
        invocation_id: InvocationId(id),
        kind,
    }))
}

fn called(id: u128, invocation: Option<u128>) -> Incoming {
    Incoming::Message(StewRpcMessage::FunctionCalled(FunctionCalled {
        internal_id: FunctionId(id),
        args: Value::from(41),
        invocation_id: invocation.map(InvocationId),
        caller_id: PluginId(9),
    }))
}

#[test]
fn plugin_loaded_response_gives_plugin_info() {
    let version = semver::Version::new(1, 2, 3);
    let r = expect_plugin_loaded(InvocationResponseData::PluginLoaded {
        plugin_id: PluginId(5),
        version: version.clone(),
    });
    let info = r.unwrap();
    assert_eq!(info.plugin_id, PluginId(5));
    assert_eq!(info.version, version);
}

#[test]
fn failed_invocation_gives_invocation_failed() {
    let r = expect_plugin_loaded(InvocationResponseData::InvocationFailed(Value::from("nope")));
    assert!(matches!(r, Err(Error::InvocationFailed(v)) if v == Value::from("nope")));
    let r = expect_function_id(InvocationResponseData::InvocationFailed(Value::from(1)));
    assert!(matches!(r, Err(Error::InvocationFailed(v)) if v == Value::from(1)));
    let r = expect_function_returned(InvocationResponseData::InvocationFailed(Value::Null));
    assert!(matches!(r, Err(Error::InvocationFailed(Value::Null))));
}

#[test]
fn unexpected_response_kind_is_reported_with_the_response() {
    let r = expect_plugin_loaded(InvocationResponseData::GotFunctionId(FunctionId(3)));
    assert!(matches!(
        r,
        Err(Error::UnexpectedInvocationResponse(InvocationResponseData::GotFunctionId(FunctionId(3))))
    ));
    let r = expect_function_id(InvocationResponseData::FunctionReturned(FunctionResult::Returned(
        Value::Null,
    )));
    assert!(matches!(
        r,
        Err(Error::UnexpectedInvocationResponse(InvocationResponseData::FunctionReturned(_)))
    ));
    let r = expect_function_returned(InvocationResponseData::PluginLoaded {
        plugin_id: PluginId(1),
        version: semver::Version::new(0, 1, 0),
    });
    assert!(matches!(
        r,
        Err(Error::UnexpectedInvocationResponse(InvocationResponseData::PluginLoaded { .. }))
    ));
}

#[test]
fn function_id_response_gives_the_id() {
    let r = expect_function_id(InvocationResponseData::GotFunctionId(FunctionId(77)));
    assert_eq!(r.unwrap(), FunctionId(77));
}

#[test]
fn function_returned_response_gives_the_result() {
    let r = expect_function_returned(InvocationResponseData::FunctionReturned(
        FunctionResult::Failed(Value::from("bad")),
    ));
    assert!(matches!(r, Ok(FunctionResult::Failed(v)) if v == Value::from("bad")));
}

#[test]
fn response_reaches_its_waiter_once() {
    let functions: Functions<&str> = Functions::new();
    let mut waiting: Invocations<&str> = Invocations::new();
    waiting.begin_invocation(InvocationId(10), "waiter-10");
    waiting.begin_invocation(InvocationId(11), "waiter-11");
    let r = step(&functions, &mut waiting, response(10, InvocationResponseData::GotFunctionId(FunctionId(1))));
    assert!(matches!(
        r,
        Reaction::Deliver { sender: "waiter-10", data: InvocationResponseData::GotFunctionId(FunctionId(1)) }
    ));
    let r = step(&functions, &mut waiting, response(10, InvocationResponseData::GotFunctionId(FunctionId(2))));
    assert!(matches!(r, Reaction::NoWaiter { invocation_id: InvocationId(10) }));
    let r = step(&functions, &mut waiting, response(11, InvocationResponseData::InvocationFailed(Value::Null)));
    assert!(matches!(r, Reaction::Deliver { sender: "waiter-11", .. }));
}

#[test]
fn response_without_waiter_is_dropped() {
    let functions: Functions<&str> = Functions::new();
    let mut waiting: Invocations<&str> = Invocations::new();
    let r = step(&functions, &mut waiting, response(3, InvocationResponseData::InvocationFailed(Value::Null)));
    assert!(matches!(r, Reaction::NoWaiter { invocation_id: InvocationId(3) }));
}

#[test]
fn finished_invocation_gets_no_response() {
    let functions: Functions<&str> = Functions::new();
    let mut waiting: Invocations<&str> = Invocations::new();
    waiting.begin_invocation(InvocationId(4), "w");
    waiting.finish_invocation(InvocationId(4));
    let r = step(&functions, &mut waiting, response(4, InvocationResponseData::InvocationFailed(Value::Null)));
    assert!(matches!(r, Reaction::NoWaiter { .. }));
}

#[test]
fn registered_function_is_called_with_reply_target() {
    let mut functions: Functions<&str> = Functions::new();
    let mut waiting: Invocations<&str> = Invocations::new();
    let call = functions.register_function_as(FunctionId(20), "double".to_string(), "f20");
    assert!(matches!(
        call,
        StewRpcCall::RegisterFunction { ref fn_name, internal_id: FunctionId(20) } if fn_name == "double"
    ));
    assert_eq!(functions.function(FunctionId(20)), Some(&"f20"));
    let r = step(&functions, &mut waiting, called(20, Some(8)));
    match r {
        Reaction::CallFunction { function_id, args, reply_to } => {
            assert_eq!(function_id, FunctionId(20));
            assert_eq!(args, Value::from(41));
            assert_eq!(reply_to, Some((PluginId(9), InvocationId(8))));
        },
        other => panic!("unexpected reaction {:?}", other),
    }
    let r = step(&functions, &mut waiting, called(20, None));
    assert!(matches!(r, Reaction::CallFunction { reply_to: None, .. }));
}

#[test]
fn call_of_unknown_function_is_reported() {
    let mut functions: Functions<&str> = Functions::new();
    let mut waiting: Invocations<&str> = Invocations::new();
    functions.register_function_as(FunctionId(1), "f".to_string(), "f1");
    let r = step(&functions, &mut waiting, called(2, Some(1)));
    assert!(matches!(r, Reaction::FunctionNotFound { function_id: FunctionId(2) }));
    assert_eq!(functions.function(FunctionId(2)), None);
}

#[test]
fn register_function_uses_a_random_id() {
    let mut functions: Functions<&str> = Functions::new();
    let call = functions.register_function("f".to_string(), "f");
    let id = match call {
        StewRpcCall::RegisterFunction { internal_id, .. } => internal_id,
        other => panic!("unexpected call {:?}", other),
    };
    assert_eq!(uuid::Uuid::from_u128(id.0).get_version_num(), 4);
    assert_eq!(functions.function(id), Some(&"f"));
}

#[test]
fn failure_is_reported_and_close_stops() {
    let functions: Functions<&str> = Functions::new();
    let mut waiting: Invocations<&str> = Invocations::new();
    let r = step(&functions, &mut waiting, Incoming::Failed("reset".to_string()));
    assert!(matches!(r, Reaction::ReceiveFailed(ref m) if m == "reset"));
    let r = step(&functions, &mut waiting, Incoming::Closed);
    assert!(matches!(r, Reaction::Stop));
}

#[test]
fn reply_goes_only_to_waiting_callers() {
    let r = function_reply(Some((PluginId(2), InvocationId(3))), Ok(Value::from(6)));
    match r {
        Some(StewRpcCall::FunctionReturn { caller_id, return_value, invocation_id }) => {
            assert_eq!(caller_id, PluginId(2));
            assert_eq!(invocation_id, InvocationId(3));
            assert!(matches!(return_value, FunctionResult::Returned(v) if v == Value::from(6)));
        },
        other => panic!("unexpected reply {:?}", other),
    }
    let r = function_reply(Some((PluginId(2), InvocationId(3))), Err(Value::from("e")));
    assert!(matches!(
        r,
        Some(StewRpcCall::FunctionReturn { return_value: FunctionResult::Failed(_), .. })
    ));
    assert!(function_reply(None, Ok(Value::Null)).is_none());
}

#[test]
fn invocation_ids_are_random_version_four_uuids() {
    let a = InvocationId::gen();
    let b = InvocationId::gen();
    assert_ne!(a, b);
    assert_eq!(uuid::Uuid::from_u128(a.0).get_version_num(), 4);
    assert_eq!(a.0 & 0xF000_C000_0000_0000_0000, 0x4000_8000_0000_0000_0000);
}
