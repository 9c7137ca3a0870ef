use idena_wasm::errors::VmError;
use idena_wasm::memory::{
    maybe_read_region, place_in_region, read_region, read_u32, read_utf16_string, ref_to_u32,
    to_u32, validate_region, write_region, Region,
};

fn put_word(m: &mut Vec<u8>, at: usize, x: u32) {
    m[at..at + 4].copy_from_slice(&x.to_le_bytes());
}

/// A memory of 64 bytes with a region descriptor at 8 naming `offset`,
/// `capacity` and `length`.
fn memory_with_region(offset: u32, capacity: u32, length: u32) -> Vec<u8> {
    let mut m = vec![0u8; 64];
    put_word(&mut m, 8, offset);
    put_word(&mut m, 12, capacity);
    put_word(&mut m, 16, length);
    m
}

fn is_custom<T>(r: &Result<T, VmError>) -> bool {
    matches!(r, Err(VmError::Custom { .. }))
}

#[test]
fn read_region_copies_bytes_in_use() {
    let mut m = memory_with_region(32, 8, 3);
    m[32] = 7;
    m[33] = 8;
    m[34] = 9;
    m[35] = 10;
    assert_eq!(read_region(&m, 8, 100).unwrap(), vec![7, 8, 9]);
}

#[test]
fn read_region_rejects_zero_offset() {
    let m = memory_with_region(0, 8, 3);
    assert!(is_custom(&read_region(&m, 8, 100)));
}

#[test]
fn read_region_rejects_length_over_capacity() {
    let m = memory_with_region(32, 2, 3);
    assert!(is_custom(&read_region(&m, 8, 100)));
}

#[test]
fn read_region_rejects_end_past_32_bits() {
    let m = memory_with_region(u32::MAX - 4, 8, 3);
    assert!(is_custom(&read_region(&m, 8, 100)));
}

#[test]
fn read_region_rejects_length_over_maximum() {
    let m = memory_with_region(32, 8, 5);
    assert!(is_custom(&read_region(&m, 8, 4)));
    assert!(read_region(&m, 8, 5).is_ok());
}

#[test]
fn read_region_rejects_descriptor_outside_memory() {
    let m = memory_with_region(32, 8, 3);
    assert!(is_custom(&read_region(&m, 60, 100)));
}

#[test]
fn read_region_rejects_span_outside_memory() {
    let m = memory_with_region(60, 8, 8);
    assert!(is_custom(&read_region(&m, 8, 100)));
}

#[test]
fn maybe_read_region_null_is_none() {
    let m = memory_with_region(32, 8, 3);
    assert_eq!(maybe_read_region(&m, 0, 100).unwrap(), None);
    assert_eq!(maybe_read_region(&m, 8, 100).unwrap(), Some(vec![0, 0, 0]));
}

#[test]
fn write_region_writes_and_sets_length() {
    let mut m = memory_with_region(32, 8, 0);
    write_region(&mut m, 8, &[1, 2, 3, 4]).unwrap();
    assert_eq!(&m[32..36], &[1, 2, 3, 4]);
    assert_eq!(read_u32(&m, 16).unwrap(), 4);
    assert_eq!(read_region(&m, 8, 100).unwrap(), vec![1, 2, 3, 4]);
}

#[test]
fn write_region_too_small() {
    let mut m = memory_with_region(32, 2, 0);
    let before = m.clone();
    let r = write_region(&mut m, 8, &[1, 2, 3]);
    match r {
        Err(VmError::Custom { msg }) => assert_eq!(msg, "region_too_small"),
        _ => panic!("expected region_too_small"),
    }
    assert_eq!(m, before);
}

#[test]
fn place_in_region_rejects_zero_pointer() {
    let mut m = memory_with_region(32, 8, 0);
    let before = m.clone();
    assert!(is_custom(&place_in_region(&mut m, 0, &[1, 2])));
    assert_eq!(m, before);
}

#[test]
fn place_in_region_rejects_negative_pointer() {
    let mut m = memory_with_region(32, 8, 0);
    assert!(is_custom(&place_in_region(&mut m, -4, &[1, 2])));
}

#[test]
fn place_in_region_writes() {
    let mut m = memory_with_region(32, 8, 0);
    assert_eq!(place_in_region(&mut m, 8, &[5, 6]).unwrap(), 8);
    assert_eq!(read_region(&m, 8, 100).unwrap(), vec![5, 6]);
}

#[test]
fn validate_region_cases() {
    assert!(validate_region(&Region { offset: 1, capacity: 4, length: 4 }).is_ok());
    assert!(validate_region(&Region { offset: 0, capacity: 4, length: 4 }).is_err());
    assert!(validate_region(&Region { offset: 1, capacity: 4, length: 5 }).is_err());
    assert!(validate_region(&Region { offset: 2, capacity: u32::MAX - 1, length: 0 }).is_err());
    assert!(validate_region(&Region { offset: 1, capacity: u32::MAX - 1, length: 0 }).is_ok());
}

#[test]
fn read_u32_little_endian() {
    let mut m = vec![0u8; 8];
    put_word(&mut m, 2, 0x0102_0304);
    assert_eq!(read_u32(&m, 2).unwrap(), 0x0102_0304);
    assert!(is_custom(&read_u32(&m, 5)));
}

#[test]
fn read_utf16_text() {
    let mut m = vec![0u8; 16];
    let units: Vec<u16> = "hé".encode_utf16().collect();
    for (i, u) in units.iter().enumerate() {
        m[4 + 2 * i..6 + 2 * i].copy_from_slice(&u.to_le_bytes());
    }
    assert_eq!(read_utf16_string(&m, 4, 4).unwrap(), "hé");
    assert!(is_custom(&read_utf16_string(&m, 14, 4)));
    assert!(is_custom(&read_utf16_string(&m, 16, 0)));
}

#[test]
fn read_utf16_rejects_lone_surrogate() {
    let mut m = vec![0u8; 8];
    m[0..2].copy_from_slice(&0xD800u16.to_le_bytes());
    assert!(is_custom(&read_utf16_string(&m, 0, 2)));
}

#[test]
fn integer_conversions() {
    assert_eq!(to_u32(7).unwrap(), 7);
    assert!(to_u32(u32::MAX as usize + 1).is_err());
    assert_eq!(ref_to_u32(&9).unwrap(), 9);
    match ref_to_u32(&-5) {
        Err(VmError::Custom { msg }) => assert_eq!(msg, "Couldn't convert from i32 to u32. Input: -5"),
        _ => panic!("expected a conversion error"),
    }
    assert!(ref_to_u32(&i32::MIN).is_err());
}
