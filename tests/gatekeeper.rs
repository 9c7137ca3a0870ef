use idena_wasm::gatekeeper::{check_operator, contains_text, limit_memory, MAX_MEMORY_PAGES};

#[test]
fn integer_operators_pass() {
    assert!(check_operator("I32Add").is_ok());
    assert!(check_operator("LocalGet { local_index: 0 }").is_ok());
    assert!(check_operator("I64Const { value: 7 }").is_ok());
    assert!(check_operator("Call { function_index: 3 }").is_ok());
}

#[test]
fn refused_families() {
    for op in [
        "F32Add",
        "I32TruncF64S",
        "V128Load { memarg: MemoryImmediate }",
        "I8x16Splat",
        "I32AtomicLoad { memarg: MemoryImmediate }",
        "MemoryCopy { src: 0, dst: 0 }",
        "MemoryFill { mem: 0 }",
        "RefNull { ty: FuncRef }",
        "TableGet { table: 0 }",
        "ReturnCall { function_index: 1 }",
    ] {
        assert!(check_operator(op).is_err(), "{}", op);
    }
}

#[test]
fn text_search() {
    assert!(contains_text("F32", "I32TruncF32S"));
    assert!(!contains_text("F32", "I32Add"));
    assert!(contains_text("", "x"));
    assert!(!contains_text("long", "lo"));
}

#[test]
fn memory_limits() {
    assert_eq!(limit_memory(1, None).unwrap(), MAX_MEMORY_PAGES);
    assert_eq!(limit_memory(1, Some(17)).unwrap(), 17);
    assert!(limit_memory(101, None).is_err());
    assert!(limit_memory(1, Some(101)).is_err());
    assert_eq!(limit_memory(100, Some(100)).unwrap(), 100);
}
