use idena_wasm::backend::BackendError;
use idena_wasm::costs::BASE_PROMISE_COST;
use idena_wasm::types::TransferAction;
use idena_wasm::environment::Env;
use idena_wasm::errors::VmError;
use idena_wasm::imports::{
    abort, bytes_to_hex, create_call_function_promise, create_transfer_promise, decimal_text,
    get_storage, promise_result, promise_then, set_storage,
};
use idena_wasm::mock::MockBackend;
use idena_wasm::types::{Action, PromiseResult};

/// Guest memory of 256 bytes; `regions` lists (descriptor at, data at, bytes).
fn memory(regions: &[(usize, usize, &[u8])]) -> Vec<u8> {
    let mut m = vec![0u8; 256];
    for (at, off, data) in regions {
        m[*at..*at + 4].copy_from_slice(&(*off as u32).to_le_bytes());
        m[*at + 4..*at + 8].copy_from_slice(&(data.len() as u32 + 4).to_le_bytes());
        m[*at + 8..*at + 12].copy_from_slice(&(data.len() as u32).to_le_bytes());
        m[*off..*off + data.len()].copy_from_slice(data);
    }
    m
}

fn env(mock: MockBackend) -> Env<MockBackend> {
    Env::new(mock, None, 1_000_000)
}

#[test]
fn storage_round_trip() {
    let m = memory(&[(8, 100, &[0x01]), (24, 120, &[42, 43])]);
    let mut e = env(MockBackend::new());
    let mut gas = 1000u64;
    set_storage(&mut e, &m, &mut gas, 8, 24).unwrap();
    assert_eq!(get_storage(&mut e, &m, &mut gas, 8).unwrap(), Some(vec![42, 43]));
    let m2 = memory(&[(8, 100, &[0x02])]);
    assert_eq!(get_storage(&mut e, &m2, &mut gas, 8).unwrap(), None);
    assert_eq!(gas, 1000);
}

#[test]
fn host_debit_to_zero_is_out_of_gas() {
    let m = memory(&[(8, 100, &[0x01]), (24, 120, &[42])]);
    let mut mock = MockBackend::new();
    mock.cost = 500;
    let mut e = env(mock);
    let mut gas = 800u64;
    assert!(set_storage(&mut e, &m, &mut gas, 8, 24).is_ok());
    assert_eq!(gas, 300);
    assert!(matches!(set_storage(&mut e, &m, &mut gas, 8, 24), Err(VmError::OutOfGas)));
    assert_eq!(gas, 0);
}

#[test]
fn unreadable_key_is_refused_without_charge() {
    let m = memory(&[(8, 0, &[])]);
    let mut mock = MockBackend::new();
    mock.cost = 5;
    let mut e = env(mock);
    let mut gas = 800u64;
    assert!(matches!(get_storage(&mut e, &m, &mut gas, 8), Err(VmError::Custom { .. })));
    assert_eq!(gas, 800);
}

#[test]
fn transfer_promise_is_queued_after_deduction() {
    let m = memory(&[(8, 100, &[2u8; 20]), (24, 140, &[0x0A])]);
    let mut mock = MockBackend::new();
    mock.balance = 100;
    mock.address = vec![1; 20];
    let mut e = env(mock);
    let mut gas = 1_000_000u64;
    create_transfer_promise(&mut e, &m, &mut gas, 8, 24).unwrap();
    assert_eq!(e.backend.balance, 90);
    assert_eq!(e.pending_promises.len(), 1);
    assert_eq!(e.pending_promises[0].receiver_id, vec![2u8; 20]);
    assert_eq!(e.pending_promises[0].predecessor_id, vec![1u8; 20]);
    match &e.pending_promises[0].action {
        Action::Transfer(t) => assert_eq!(t.amount, vec![0x0A]),
        _ => panic!("expected a transfer"),
    }
}

#[test]
fn deposit_that_cannot_be_deducted_is_not_queued() {
    let m = memory(&[(8, 100, &[2u8; 20]), (24, 140, b"run"), (40, 160, &[0x05])]);
    let mut mock = MockBackend::new();
    mock.balance = 4;
    let mut e = env(mock);
    let mut gas = 1_000_000u64;
    let r = create_call_function_promise(&mut e, &m, &mut gas, 8, 24, 0, 40, 1000);
    assert!(matches!(r, Err(VmError::Custom { .. })));
    assert!(e.pending_promises.is_empty());
    assert_eq!(e.backend.balance, 4);
}

#[test]
fn call_promise_and_callback() {
    let m = memory(&[(8, 100, &[2u8; 20]), (24, 140, b"run"), (40, 160, &[0x05]), (56, 180, b"_done")]);
    let mut mock = MockBackend::new();
    mock.balance = 10;
    let mut e = env(mock);
    let mut gas = 1_000_000u64;
    let idx = create_call_function_promise(&mut e, &m, &mut gas, 8, 24, 0, 40, 1000).unwrap();
    assert_eq!(idx, 0);
    assert_eq!(e.backend.balance, 5);
    assert_eq!(gas, 1_000_000 - 1000 - 100_000);
    match &e.pending_promises[0].action {
        Action::FunctionCall(c) => {
            assert_eq!(c.method_name, "run");
            assert_eq!(c.deposit, vec![0x05]);
            assert_eq!(c.gas_limit, 1000);
            assert!(c.args.is_empty());
        }
        _ => panic!("expected a call"),
    }
    promise_then(&mut e, &m, &mut gas, 0, 56, 0, 0, 500).unwrap();
    assert!(e.pending_promises[0].action_callback.is_some());
    let second = promise_then(&mut e, &m, &mut gas, 0, 56, 0, 0, 500);
    assert!(matches!(second, Err(VmError::Custom { .. })));
    let missing = promise_then(&mut e, &m, &mut gas, 3, 56, 0, 0, 500);
    assert!(matches!(missing, Err(VmError::Custom { .. })));
}

#[test]
fn promise_result_status() {
    let mut m = memory(&[(8, 100, &[9])]);
    let e = Env::new(MockBackend::new(), Some(PromiseResult::Value(vec![7, 7])), 10);
    assert_eq!(promise_result(&e, &mut m, 8).unwrap(), Some(vec![7, 7]));
    assert_eq!(m[100], 2);
    let e = Env::new(MockBackend::new(), Some(PromiseResult::Failed), 10);
    assert_eq!(promise_result(&e, &mut m, 8).unwrap(), None);
    assert_eq!(m[100], 0);
    let e = Env::new(MockBackend::new(), None, 10);
    assert_eq!(promise_result(&e, &mut m, 8).unwrap(), None);
    assert_eq!(m[100], 1);
}

#[test]
fn hex_of_bytes() {
    let m = memory(&[(8, 100, &[0xAB, 0x01])]);
    let mut e = env(MockBackend::new());
    let mut gas = 100_000u64;
    assert_eq!(bytes_to_hex(&mut e, &m, &mut gas, 8).unwrap(), "ab01");
    assert_eq!(gas, 100_000 - 10_002);
}

#[test]
fn panic_message() {
    let m = memory(&[(8, 100, b"bad input")]);
    match idena_wasm::imports::panic(&m, 8) {
        VmError::WasmExecutionErr { msg } => assert_eq!(msg, "bad input"),
        _ => panic!("expected a wasm error"),
    }
}

#[test]
fn abort_message() {
    let mut m = vec![0u8; 64];
    let msg: Vec<u16> = "no".encode_utf16().collect();
    let file: Vec<u16> = "a.ts".encode_utf16().collect();
    m[4..8].copy_from_slice(&4u32.to_le_bytes());
    for (i, u) in msg.iter().enumerate() {
        m[8 + 2 * i..10 + 2 * i].copy_from_slice(&u.to_le_bytes());
    }
    m[16..20].copy_from_slice(&8u32.to_le_bytes());
    for (i, u) in file.iter().enumerate() {
        m[20 + 2 * i..22 + 2 * i].copy_from_slice(&u.to_le_bytes());
    }
    match abort(&m, 8, 20, 12, 5) {
        VmError::WasmExecutionErr { msg } => assert_eq!(msg, "no, filename: \"a.ts\" line: 12 col: 5"),
        _ => panic!("expected a wasm error"),
    }
    assert!(matches!(abort(&m, 2, 20, 1, 1), VmError::Custom { .. }));
}

#[test]
fn decimal_digits() {
    assert_eq!(decimal_text(0), "0");
    assert_eq!(decimal_text(907), "907");
    assert_eq!(decimal_text(u32::MAX), "4294967295");
}

#[test]
fn push_promise_uses_host_address() {
    let mut e = env(MockBackend::new());
    let (r, gas) = e.push_promise(Ok(vec![7; 20]), 5, vec![2; 20], Action::Transfer(TransferAction { amount: vec![1] }));
    assert_eq!(r.unwrap(), 0);
    assert_eq!(gas, 5 + BASE_PROMISE_COST);
    assert_eq!(e.pending_promises[0].predecessor_id, vec![7; 20]);
    assert_eq!(e.pending_promises[0].receiver_id, vec![2; 20]);
    let (r, gas) = e.push_promise(Err(BackendError::new("no address")), 3, vec![2; 20], Action::Unset);
    assert!(r.is_err());
    assert_eq!(gas, 3);
    assert_eq!(e.pending_promises.len(), 1);
}

#[test]
fn refused_deposit_leaves_gas_and_queue_for_transfer() {
    let m = memory(&[(8, 100, &[2u8; 20]), (24, 140, &[0x0A])]);
    let mut mock = MockBackend::new();
    mock.balance = 1;
    let mut e = env(mock);
    let mut gas = 1_000u64;
    let r = create_transfer_promise(&mut e, &m, &mut gas, 8, 24);
    match r {
        Err(VmError::Custom { msg }) => assert!(msg.starts_with("backend error: ")),
        _ => panic!("expected a host failure"),
    }
    assert!(e.pending_promises.is_empty());
}
