use idena_wasm::args::{convert_args, plan_arguments, Argument};
use idena_wasm::errors::VmError;

fn list(items: &[(bool, &[u8])]) -> Vec<u8> {
    let mut b = vec![1u8];
    b.extend_from_slice(&(items.len() as u32).to_le_bytes());
    for (nil, v) in items {
        b.push(if *nil { 1 } else { 0 });
        b.extend_from_slice(&(v.len() as u32).to_le_bytes());
        b.extend_from_slice(v);
    }
    b
}

#[test]
fn plain_argument() {
    let a = convert_args(&[0, 9, 8]).unwrap();
    assert_eq!(a.len(), 1);
    assert_eq!(a[0].value, vec![9, 8]);
    assert!(!a[0].is_nil);
}

#[test]
fn listed_arguments() {
    let b = list(&[(false, &[1, 2]), (true, &[]), (false, &[3])]);
    let a = convert_args(&b).unwrap();
    assert_eq!(a.len(), 3);
    assert_eq!(a[0].value, vec![1, 2]);
    assert!(a[1].is_nil);
    assert_eq!(a[2].value, vec![3]);
}

#[test]
fn malformed_arguments() {
    assert!(matches!(convert_args(&[]), Err(VmError::Custom { .. })));
    assert!(matches!(convert_args(&[7, 1]), Err(VmError::Custom { .. })));
    let mut b = list(&[(false, &[1, 2])]);
    b.pop();
    assert!(convert_args(&b).is_err());
    let mut b = list(&[(false, &[1, 2])]);
    b.push(0);
    assert!(convert_args(&b).is_err());
    let mut b = list(&[(false, &[1])]);
    b[5] = 2;
    assert!(convert_args(&b).is_err());
}

#[test]
fn plan_pads_with_null() {
    let args = vec![
        Argument { value: vec![1], is_nil: false },
        Argument { value: vec![], is_nil: true },
    ];
    let p = plan_arguments(4, &args).unwrap();
    assert_eq!(p, vec![Some(vec![1]), None, None, None]);
}

#[test]
fn plan_refuses_too_many() {
    let args = vec![
        Argument { value: vec![1], is_nil: false },
        Argument { value: vec![2], is_nil: false },
    ];
    assert!(matches!(plan_arguments(1, &args), Err(VmError::Custom { .. })));
}
