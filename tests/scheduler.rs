use idena_wasm::codec::{encode_action_result, encode_invocation_context};
use idena_wasm::costs::{BASE_CALL_COST, BASE_PROMISE_COST};
use idena_wasm::errors::VmError;
use idena_wasm::mock::MockBackend;
use idena_wasm::runner::{classify_trap, read_output, GuestOutcome, VmRunner};
use idena_wasm::types::{
    Action, ActionResult, FunctionCallAction, InvocationContext, Promise, PromiseResult,
    TransferAction,
};

fn node(success: bool, output: Vec<u8>, gas_used: u64, remaining: u64) -> ActionResult {
    ActionResult {
        input_action: Action::Unset,
        gas_used,
        remaining_gas: remaining,
        success,
        error: if success { String::new() } else { "failed".to_string() },
        output_data: output,
        sub_action_results: vec![],
        contract: vec![9; 20],
    }
}

fn call(method: &str, deposit: Vec<u8>, gas_limit: u64) -> Action {
    Action::FunctionCall(FunctionCallAction {
        method_name: method.to_string(),
        args: vec![],
        gas_limit,
        deposit,
    })
}

fn promise(action: Action, callback: Option<Action>) -> Promise {
    Promise {
        predecessor_id: vec![1; 20],
        receiver_id: vec![2; 20],
        action,
        action_callback: callback,
    }
}

fn runner(mock: MockBackend, gas_limit: u64) -> VmRunner<MockBackend> {
    VmRunner::new(mock, vec![1; 20], gas_limit, None, false)
}

#[test]
fn transfer_promise_node() {
    let mut r = runner(MockBackend::new(), 1_000_000);
    let p = promise(Action::Transfer(TransferAction { amount: vec![0x0A] }), None);
    let out = r.execute_promises(vec![p]);
    assert_eq!(out.len(), 1);
    match &out[0].input_action {
        Action::Transfer(t) => assert_eq!(t.amount, vec![0x0A]),
        _ => panic!("expected a transfer"),
    }
    assert!(out[0].success);
    assert_eq!(out[0].gas_used, BASE_PROMISE_COST);
    assert_eq!(out[0].remaining_gas, 0);
    assert_eq!(out[0].contract, vec![2; 20]);
    assert_eq!(r.api.credits, vec![(vec![2; 20], vec![0x0A])]);
}

#[test]
fn call_promise_with_failing_callback() {
    let mut mock = MockBackend::new();
    mock.responses.push(node(true, vec![], 400, 600));
    mock.responses.push(node(false, vec![], 50, 950));
    let mut r = runner(mock, 1_000_000);
    let p = promise(call("run", vec![], 1000), Some(call("_on_done", vec![], 1000)));
    let out = r.execute_promises(vec![p]);
    assert_eq!(out.len(), 2);
    assert!(out[0].success);
    assert!(!out[1].success);
    assert_eq!(r.api.calls.len(), 2);
    assert_eq!(r.api.calls[0].0, vec![2; 20]);
    assert_eq!(r.api.calls[0].1, b"run".to_vec());
    assert_eq!(r.api.calls[1].0, vec![1; 20]);
    assert_eq!(r.api.calls[1].1, b"_on_done".to_vec());
    let seen = InvocationContext { is_callback: true, promise_result: Some(PromiseResult::Empty) };
    assert_eq!(r.api.calls[1].2, encode_invocation_context(&seen));
    assert_eq!(r.api.calls[1].2, vec![1, 2]);
    assert_eq!(r.api.calls[0].2, vec![0, 0]);
}

#[test]
fn callback_sees_value_and_failure() {
    let mut mock = MockBackend::new();
    mock.responses.push(node(true, vec![4, 5], 10, 0));
    mock.responses.push(node(true, vec![], 10, 0));
    mock.responses.push(node(false, vec![], 10, 0));
    mock.responses.push(node(true, vec![], 10, 0));
    let mut r = runner(mock, 1_000_000);
    let ps = vec![
        promise(call("a", vec![], 10), Some(call("_a", vec![], 10))),
        promise(call("b", vec![], 10), Some(call("_b", vec![], 10))),
    ];
    let out = r.execute_promises(ps);
    assert_eq!(out.len(), 4);
    assert_eq!(r.api.calls[1].2, vec![1, 3, 2, 0, 0, 0, 0, 0, 0, 0, 4, 5]);
    assert_eq!(r.api.calls[3].2, vec![1, 1]);
}

#[test]
fn missing_receiver_is_a_failed_child() {
    let mut r = runner(MockBackend::new(), 1_000_000);
    let out = r.execute_promises(vec![promise(call("run", vec![], 1000), None)]);
    assert_eq!(out.len(), 1);
    assert!(!out[0].success);
    assert!(!out[0].error.is_empty());
    assert!(out[0].output_data.is_empty());
}

#[test]
fn deposit_refunded_when_call_fails() {
    let mut mock = MockBackend::new();
    mock.responses.push(node(false, vec![], 1000, 0));
    let mut r = runner(mock, 1_000_000);
    let out = r.execute_promises(vec![promise(call("run", vec![0x05], 1000), None)]);
    assert_eq!(out.len(), 1);
    assert!(!out[0].success);
    assert_eq!(r.api.credits, vec![(vec![1; 20], vec![0x05])]);
    assert_eq!(r.api.commits, 1);
}

#[test]
fn no_refund_when_call_succeeds() {
    let mut mock = MockBackend::new();
    mock.responses.push(node(true, vec![], 1000, 0));
    let mut r = runner(mock, 1_000_000);
    r.execute_promises(vec![promise(call("run", vec![0x05], 1000), None)]);
    assert!(r.api.credits.is_empty());
    assert_eq!(r.api.commits, 0);
}

#[test]
fn gas_refund_aggregation() {
    let mut mock = MockBackend::new();
    mock.responses.push(node(true, vec![], 400, 600));
    mock.responses.push(node(true, vec![], 400, 600));
    let mut r = runner(mock, 10_000);
    let ps = vec![promise(call("a", vec![], 1000), None), promise(call("b", vec![], 1000), None)];
    let res = r.complete_call(Action::Unset, vec![], 5_000, ps);
    assert!(res.success);
    assert_eq!(res.sub_action_results.len(), 2);
    assert_eq!(res.gas_used, 3_800);
    assert_eq!(res.remaining_gas, 10_000 - 3_800);
    assert_eq!(r.api.commits, 1);
}

#[test]
fn refund_never_exceeds_gas_used() {
    let mut mock = MockBackend::new();
    mock.responses.push(node(true, vec![], 0, 9_000));
    let mut r = runner(mock, 10_000);
    let res = r.complete_call(Action::Unset, vec![], 500, vec![promise(call("a", vec![], 9000), None)]);
    assert_eq!(res.gas_used, 0);
    assert_eq!(res.remaining_gas, 10_000);
}

#[test]
fn out_of_gas_inside_guest() {
    let mut r = runner(MockBackend::new(), 10_000);
    let err = classify_trap(true, None, "unreachable".to_string());
    let res = r.finish(Action::Unset, GuestOutcome::Trapped(err), 0, &[], vec![]);
    assert!(!res.success);
    assert_eq!(res.error, "Out of gas");
    assert_eq!(res.gas_used, 10_000);
    assert_eq!(res.remaining_gas, 0);
    assert!(res.output_data.is_empty());
}

#[test]
fn trap_classification() {
    assert!(matches!(classify_trap(true, Some(VmError::custom("x")), String::new()), VmError::OutOfGas));
    assert!(matches!(classify_trap(false, Some(VmError::OutOfGas), String::new()), VmError::OutOfGas));
    match classify_trap(false, None, "oops".to_string()) {
        VmError::WasmExecutionErr { msg } => assert_eq!(msg, "oops"),
        _ => panic!("expected a wasm error"),
    }
}

fn memory_with_output(data: &[u8]) -> Vec<u8> {
    let mut m = vec![0u8; 64];
    m[8..12].copy_from_slice(&32u32.to_le_bytes());
    m[12..16].copy_from_slice(&16u32.to_le_bytes());
    m[16..20].copy_from_slice(&(data.len() as u32).to_le_bytes());
    m[32..32 + data.len()].copy_from_slice(data);
    m
}

#[test]
fn returned_pointer_gives_output() {
    let m = memory_with_output(&[3, 1, 4]);
    let mut r = runner(MockBackend::new(), 10_000);
    let res = r.finish(Action::Unset, GuestOutcome::Returned(Some(8)), 7_000, &m, vec![]);
    assert!(res.success);
    assert_eq!(res.output_data, vec![3, 1, 4]);
    assert_eq!(res.gas_used, 3_000);
    assert_eq!(res.remaining_gas, 7_000);
    assert!(res.sub_action_results.is_empty());
}

#[test]
fn zero_pointer_gives_no_output() {
    let m = memory_with_output(&[3, 1, 4]);
    assert!(read_output(&m, Some(0)).is_empty());
    assert!(read_output(&m, Some(-8)).is_empty());
    assert!(read_output(&m, None).is_empty());
    assert_eq!(read_output(&m, Some(8)), vec![3, 1, 4]);
    assert!(read_output(&m, Some(40)).is_empty());
}

#[test]
fn direct_deploy_is_refused() {
    let r = runner(MockBackend::new(), 1_000_000);
    let res = r.prepare_execute(&"deploy".to_string(), &[0], false).err().unwrap();
    assert!(!res.success);
    assert!(res.error.contains("direct call to deploy"));
    assert_eq!(res.gas_used, BASE_CALL_COST);
}

#[test]
fn underscore_method_needs_callback() {
    let r = runner(MockBackend::new(), 1_000_000);
    let res = r.prepare_execute(&"_done".to_string(), &[0], false).err().unwrap();
    assert!(!res.success);
    assert!(res.error.starts_with("Error calling the VM"));
    assert!(r.prepare_execute(&"_done".to_string(), &[0], true).is_ok());
    assert!(r.prepare_execute(&"get".to_string(), &[0, 1], false).is_ok());
}

#[test]
fn base_cost_over_limit_fails_before_running() {
    let r = runner(MockBackend::new(), 50_000);
    let res = r.prepare_execute(&"get".to_string(), &[0], false).err().unwrap();
    assert_eq!(res.error, "Out of gas");
    assert_eq!(res.gas_used, 50_000);
    assert_eq!(res.remaining_gas, 0);
    let r = runner(MockBackend::new(), 10_000);
    let res = r.prepare_execute(&"loop".to_string(), &[0], false).err().unwrap();
    assert_eq!(res.gas_used, 10_000);
    assert_eq!(res.remaining_gas, 0);
    assert!(res.sub_action_results.is_empty());
    let r = runner(MockBackend::new(), 150_000);
    let (_, left, args) = r.prepare_execute(&"get".to_string(), &[0, 7], false).ok().unwrap();
    assert_eq!(left, 50_000);
    assert_eq!(args[0].value, vec![7]);
}

#[test]
fn encoding_twice_is_identical() {
    let mut parent = node(true, vec![1, 2], 10, 20);
    parent.sub_action_results.push(node(false, vec![], 3, 4));
    let a = encode_action_result(&parent);
    let b = encode_action_result(&parent);
    assert_eq!(a, b);
    assert!(!a.is_empty());
}

#[test]
fn encoded_result_decodes_to_same_values() {
    let mut parent = node(true, vec![1, 2], 10, 20);
    parent.input_action = call("get", vec![5], 77);
    let mut child = node(false, vec![], 3, 4);
    child.input_action = Action::Transfer(TransferAction { amount: vec![0x0A] });
    child.error = "Out of gas ✓".to_string();
    parent.sub_action_results.push(child);
    let bytes = encode_action_result(&parent);
    let back = idena_wasm::codec::decode_action_result(&bytes).unwrap();
    assert_eq!(back.gas_used, 10);
    assert_eq!(back.remaining_gas, 20);
    assert!(back.success);
    assert_eq!(back.output_data, vec![1, 2]);
    assert_eq!(back.contract, vec![9; 20]);
    match &back.input_action {
        Action::FunctionCall(c) => {
            assert_eq!(c.method_name, "get");
            assert_eq!(c.deposit, vec![5]);
            assert_eq!(c.gas_limit, 77);
        }
        _ => panic!("expected a call"),
    }
    assert_eq!(back.sub_action_results.len(), 1);
    let c = &back.sub_action_results[0];
    assert!(!c.success);
    assert_eq!(c.error, "Out of gas ✓");
    match &c.input_action {
        Action::Transfer(t) => assert_eq!(t.amount, vec![0x0A]),
        _ => panic!("expected a transfer"),
    }
    assert_eq!(encode_action_result(&back), bytes);
}

#[test]
fn truncated_result_is_rejected() {
    let bytes = encode_action_result(&node(true, vec![1], 1, 1));
    assert!(idena_wasm::codec::decode_action_result(&bytes[..bytes.len() - 1]).is_none());
    let mut longer = bytes.clone();
    longer.push(0);
    assert!(idena_wasm::codec::decode_action_result(&longer).is_none());
}

#[test]
fn context_round_trip() {
    let ctx = InvocationContext { is_callback: true, promise_result: Some(PromiseResult::Value(vec![8, 9])) };
    let bytes = encode_invocation_context(&ctx);
    let back = idena_wasm::codec::decode_invocation_context(&bytes).unwrap();
    assert!(back.is_callback);
    match back.promise_result {
        Some(PromiseResult::Value(v)) => assert_eq!(v, vec![8, 9]),
        _ => panic!("expected a value"),
    }
    let plain = idena_wasm::codec::decode_invocation_context(&[0, 0]).unwrap();
    assert!(!plain.is_callback);
    assert!(plain.promise_result.is_none());
    assert!(idena_wasm::codec::decode_invocation_context(&[2, 0]).is_none());
    assert!(idena_wasm::codec::decode_invocation_context(&[0, 9]).is_none());
}

#[test]
fn transfer_callback_follows_transfer() {
    let mut mock = MockBackend::new();
    mock.responses.push(node(true, vec![], 5, 0));
    let mut r = runner(mock, 1_000_000);
    let p = promise(
        Action::Transfer(TransferAction { amount: vec![0x0A] }),
        Some(call("_after", vec![], 100)),
    );
    let out = r.execute_promises(vec![p]);
    assert_eq!(out.len(), 2);
    assert!(out[0].success);
    assert!(out[1].success);
    assert_eq!(r.api.calls.len(), 1);
    assert_eq!(r.api.calls[0].0, vec![1; 20]);
    assert_eq!(r.api.calls[0].1, b"_after".to_vec());
    assert_eq!(r.api.calls[0].2, vec![1, 2]);
}

#[test]
fn failed_call_node_keeps_to_its_limit() {
    let mut mock = MockBackend::new();
    mock.cost = 5_000;
    let mut r = runner(mock, 1_000_000);
    let out = r.execute_promises(vec![promise(call("run", vec![], 1_000), None)]);
    assert!(!out[0].success);
    assert_eq!(out[0].gas_used, 1_000);
    assert_eq!(out[0].remaining_gas, 0);
}
