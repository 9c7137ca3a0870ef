use idena_wasm::backend::BackendError;
use idena_wasm::errors::VmError;
use idena_wasm::gas::process_gas_info;
use idena_wasm::go::{check_go_result, GoResult};

#[test]
fn debit_leaves_the_rest() {
    let mut left = 100u64;
    assert!(process_gas_info(&mut left, 30).is_ok());
    assert_eq!(left, 70);
}

#[test]
fn debit_to_zero_is_out_of_gas() {
    let mut left = 100u64;
    assert!(matches!(process_gas_info(&mut left, 100), Err(VmError::OutOfGas)));
    assert_eq!(left, 0);
    let mut left = 10u64;
    assert!(matches!(process_gas_info(&mut left, 1000), Err(VmError::OutOfGas)));
    assert_eq!(left, 0);
}

#[test]
fn error_texts() {
    assert_eq!(VmError::out_of_gas().to_string(), "Out of gas");
    assert_eq!(VmError::custom("x").to_string(), "Error calling the VM: x");
    assert_eq!(VmError::wasm_err("boom".to_string()).to_string(), "Error in wasm module: boom");
    let e = VmError::from_backend(BackendError::new("no funds"));
    assert_eq!(e.to_string(), "Error calling the VM: backend error: no funds");
    let e = VmError::from_backend(BackendError::out_of_gas());
    assert_eq!(e.to_string(), "Error calling the VM: backend error: out_of_gas");
}

#[test]
fn go_status_codes() {
    assert_eq!(GoResult::from_code(0), GoResult::Success);
    assert_eq!(GoResult::from_code(3), GoResult::OutOfGas);
    assert_eq!(GoResult::from_code(5), GoResult::User);
    assert_eq!(GoResult::from_code(4), GoResult::Other);
    assert_eq!(GoResult::from_code(77), GoResult::Other);
    assert_eq!(GoResult::from_code(1).to_string(), "Panic");
    assert!(check_go_result(0, "get_storage").is_none());
    assert!(matches!(check_go_result(3, "get_storage"), Some(BackendError::OutOfGas)));
    match check_go_result(2, "get_storage") {
        Some(BackendError::Custom { msg }) => assert_eq!(msg, "get_storage"),
        _ => panic!("expected a custom error"),
    }
}
