use idena_wasm::backend::BackendError;
use idena_wasm::costs::BASE_DEPLOY_COST;
use idena_wasm::errors::VmError;
use idena_wasm::mock::{amount_value, MockBackend};
use idena_wasm::runner::{check_method, check_required_exports, VmRunner};
use idena_wasm::types::{
    Action, ActionResult, GetIdentityAction, InvocationContext, Promise, PromiseResult,
    ReadContractDataAction, ReadShardedDataAction,
};

fn runner(mock: MockBackend, gas_limit: u64) -> VmRunner<MockBackend> {
    VmRunner::new(mock, vec![1; 20], gas_limit, None, false)
}

fn read_action(gas_limit: u64) -> Action {
    Action::ReadShardedData(ReadShardedDataAction::ReadContractData(ReadContractDataAction {
        gas_limit,
        key: vec![1],
    }))
}

#[test]
fn sharded_read_value_empty_and_failure() {
    let mut out: Vec<ActionResult> = Vec::new();
    let pr = VmRunner::<MockBackend>::execute_read_sharded_data(
        (Ok(Some(vec![4, 2])), 30),
        vec![2; 20],
        &mut out,
        read_action(100),
        100,
    );
    assert!(matches!(pr, PromiseResult::Value(ref v) if v == &vec![4, 2]));
    assert!(out[0].success);
    assert_eq!(out[0].output_data, vec![4, 2]);
    assert_eq!(out[0].gas_used, 30);
    assert_eq!(out[0].remaining_gas, 70);

    let pr = VmRunner::<MockBackend>::execute_read_sharded_data((Ok(None), 10), vec![2; 20], &mut out, read_action(100), 100);
    assert!(matches!(pr, PromiseResult::Empty));
    assert!(out[1].success && out[1].output_data.is_empty());

    let pr = VmRunner::<MockBackend>::execute_read_sharded_data(
        (Err(BackendError::new("gone")), 10),
        vec![2; 20],
        &mut out,
        read_action(100),
        100,
    );
    assert!(matches!(pr, PromiseResult::Failed));
    assert!(!out[2].success);
    assert_eq!(out[2].error, "Error calling the VM: backend error: gone");
}

#[test]
fn sharded_read_over_its_gas_is_out_of_gas() {
    let mut out: Vec<ActionResult> = Vec::new();
    let pr = VmRunner::<MockBackend>::execute_read_sharded_data((Ok(Some(vec![1])), 500), vec![2; 20], &mut out, read_action(100), 100);
    assert!(matches!(pr, PromiseResult::Failed));
    assert_eq!(out[0].error, "Out of gas");
    assert_eq!(out[0].gas_used, 100);
    assert_eq!(out[0].remaining_gas, 0);
}

#[test]
fn read_promise_runs_callback_with_data() {
    let mut mock = MockBackend::new();
    mock.storage.push((vec![1], vec![6, 6]));
    mock.responses.push(ActionResult {
        input_action: Action::Unset,
        gas_used: 1,
        remaining_gas: 0,
        success: true,
        error: String::new(),
        output_data: vec![],
        sub_action_results: vec![],
        contract: vec![],
    });
    let mut r = runner(mock, 1_000_000);
    let callback = Action::FunctionCall(idena_wasm::types::FunctionCallAction {
        method_name: "_got".to_string(),
        args: vec![],
        gas_limit: 10,
        deposit: vec![],
    });
    let p = Promise {
        predecessor_id: vec![1; 20],
        receiver_id: vec![2; 20],
        action: read_action(100),
        action_callback: Some(callback),
    };
    let identity = Promise {
        predecessor_id: vec![1; 20],
        receiver_id: vec![3; 20],
        action: Action::ReadShardedData(ReadShardedDataAction::GetIdentity(GetIdentityAction {
            gas_limit: 5,
            addr: vec![3; 20],
        })),
        action_callback: None,
    };
    let out = r.execute_promises(vec![p, identity]);
    assert_eq!(out.len(), 3);
    assert_eq!(out[0].output_data, vec![6, 6]);
    assert_eq!(r.api.calls.len(), 1);
    assert_eq!(r.api.calls[0].2, vec![1, 3, 2, 0, 0, 0, 0, 0, 0, 0, 6, 6]);
    assert!(out[2].success);
    assert!(out[2].output_data.is_empty());
}

#[test]
fn unset_promise_adds_nothing() {
    let mut r = runner(MockBackend::new(), 1_000);
    let p = Promise { predecessor_id: vec![], receiver_id: vec![], action: Action::Unset, action_callback: None };
    assert!(r.execute_promises(vec![p]).is_empty());
}

#[test]
fn method_checks() {
    assert!(check_method("get", false).is_ok());
    assert!(check_method("_cb", true).is_ok());
    assert!(matches!(check_method("_cb", false), Err(VmError::Custom { .. })));
    match check_method("deploy", true) {
        Err(VmError::Custom { msg }) => assert_eq!(msg, "direct call to deploy is forbidden"),
        _ => panic!("expected a refusal"),
    }
}

#[test]
fn required_exports() {
    let all = vec!["memory".to_string(), "allocate".to_string(), "deploy".to_string(), "x".to_string()];
    assert!(check_required_exports(&all).is_ok());
    let missing = vec!["memory".to_string(), "allocate".to_string()];
    assert!(matches!(check_required_exports(&missing), Err(VmError::Custom { .. })));
}

#[test]
fn deploy_preparation() {
    let r = runner(MockBackend::new(), BASE_DEPLOY_COST);
    let node = r.prepare_deploy(&[0]).err().unwrap();
    assert_eq!(node.error, "Out of gas");
    assert_eq!(node.gas_used, BASE_DEPLOY_COST);
    let r = runner(MockBackend::new(), BASE_DEPLOY_COST + 5);
    let (action, left, args) = r.prepare_deploy(&[0, 3]).ok().unwrap();
    assert_eq!(left, 5);
    assert_eq!(args.len(), 1);
    assert!(matches!(action, Action::DeployContract(ref d) if d.code.is_empty() && d.args == vec![0, 3]));
    let node = r.prepare_deploy(&[9]).err().unwrap();
    assert!(node.error.starts_with("Error calling the VM"));
}

#[test]
fn context_of_runner() {
    let r = VmRunner::new(
        MockBackend::new(),
        vec![],
        10,
        Some(InvocationContext { is_callback: true, promise_result: Some(PromiseResult::Failed) }),
        false,
    );
    let c = r.context();
    assert!(c.is_callback);
    assert!(matches!(c.promise_result, Some(PromiseResult::Failed)));
    assert!(!runner(MockBackend::new(), 1).context().is_callback);
}

#[test]
fn amounts_are_big_endian() {
    assert_eq!(amount_value(&[]), Some(0));
    assert_eq!(amount_value(&[1, 0]), Some(256));
    assert_eq!(amount_value(&[0xFF; 8]), Some(u64::MAX));
    assert_eq!(amount_value(&[1, 0, 0, 0, 0, 0, 0, 0, 0]), None);
}

#[test]
fn lossy_text_replaces_invalid_bytes() {
    let mut m = vec![0u8; 64];
    m[8..12].copy_from_slice(&32u32.to_le_bytes());
    m[12..16].copy_from_slice(&8u32.to_le_bytes());
    m[16..20].copy_from_slice(&3u32.to_le_bytes());
    m[32..35].copy_from_slice(&[b'o', 0xFF, b'k']);
    assert_eq!(idena_wasm::imports::debug(&m, 8).unwrap(), "o\u{FFFD}k");
}

#[test]
fn gas_refund_caps_at_used() {
    let mk = |rem: u64| ActionResult {
        input_action: Action::Unset,
        gas_used: 0,
        remaining_gas: rem,
        success: true,
        error: String::new(),
        output_data: vec![],
        sub_action_results: vec![],
        contract: vec![],
    };
    let kids = vec![mk(u64::MAX), mk(u64::MAX)];
    assert_eq!(VmRunner::<MockBackend>::gas_refund(&kids, 7), 7);
    let kids = vec![mk(2), mk(3)];
    assert_eq!(VmRunner::<MockBackend>::gas_refund(&kids, 7), 5);
}
