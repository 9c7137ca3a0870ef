use vstd::prelude::*;
use vstd::slice::*;
use vstd::string::*;

use crate::adapters::{le16_at, read_u16_le, string_from_utf16, utf16_text};
use crate::imports::{decimal, decimal_text};
use crate::errors::{host_error_text, lemma_not_host_text, VmError, VmResult};

verus! {

/// The descriptor of a span of guest memory, stored in the guest as three
/// little-endian 32-bit words.
#[derive(Clone, Copy, Debug)]
pub struct Region {
    /// The first byte of the span.
    pub offset: u32,
    /// The number of bytes available.
    pub capacity: u32,
    /// The number of bytes in use.
    pub length: u32,
}

/// The little-endian 32-bit word at `p`.
pub open spec fn le32(m: Seq<u8>, p: int) -> int {
    m[p] as int + 256 * (m[p + 1] as int) + 65536 * (m[p + 2] as int) + 16777216 * (m[p + 3] as int)
}

/// The four little-endian bytes of `x`.
pub open spec fn le32_bytes(x: u32) -> Seq<u8> {
    seq![
        (x % 256) as u8,
        ((x / 256) % 256) as u8,
        ((x / 65536) % 256) as u8,
        (x / 16777216) as u8,
    ]
}

/// The descriptor stored at `ptr`.
pub open spec fn region_at(m: Seq<u8>, ptr: int) -> Region {
    Region {
        offset: le32(m, ptr) as u32,
        capacity: le32(m, ptr + 4) as u32,
        length: le32(m, ptr + 8) as u32,
    }
}

/// A descriptor is usable: a non-zero offset, a length within the capacity,
/// and an end that fits in 32 bits.
pub open spec fn region_valid(r: Region) -> bool {
    &&& r.offset != 0
    &&& r.length <= r.capacity
    &&& r.offset as int + r.capacity as int <= u32::MAX as int
}

/// The descriptor at `ptr`, when it lies in memory and is usable.
pub open spec fn resolve_region(m: Seq<u8>, ptr: u32) -> Option<Region> {
    if ptr as int + 12 > m.len() {
        None
    } else if !region_valid(region_at(m, ptr as int)) {
        None
    } else {
        Some(region_at(m, ptr as int))
    }
}

/// The bytes in use of the region at `ptr`, when at most `max_length`.
pub open spec fn region_contents(m: Seq<u8>, ptr: u32, max_length: usize) -> Option<Seq<u8>> {
    match resolve_region(m, ptr) {
        None => None,
        Some(r) => if r.length as int > max_length as int || r.offset as int + r.length as int
            > m.len() {
            None
        } else {
            Some(m.subrange(r.offset as int, r.offset as int + r.length as int))
        },
    }
}

/// `m` with `d` written at `at`.
pub open spec fn splice(m: Seq<u8>, at: int, d: Seq<u8>) -> Seq<u8> {
    m.subrange(0, at) + d + m.subrange(at + d.len(), m.len() as int)
}

/// The memory after `data` is written into the region at `ptr`, whose
/// length then becomes the length of `data`.
pub open spec fn region_written(m: Seq<u8>, ptr: u32, data: Seq<u8>) -> Option<Seq<u8>> {
    match resolve_region(m, ptr) {
        None => None,
        Some(r) => if data.len() > r.capacity as int || r.offset as int + r.capacity as int
            > m.len() {
            None
        } else {
            Some(
                splice(splice(m, r.offset as int, data), ptr + 8, le32_bytes(data.len() as u32)),
            )
        },
    }
}

/// Reads the little-endian word at `p`.
fn load_u32(m: &[u8], p: usize) -> (r: u32)
    requires
        p + 4 <= m@.len(),
    ensures
        r as int == le32(m@, p as int),
{
    let b0 = m[p] as u32;
    let b1 = m[p + 1] as u32;
    let b2 = m[p + 2] as u32;
    let b3 = m[p + 3] as u32;
    b0 + 256 * b1 + 65536 * b2 + 16777216 * b3
}

/// Reading back the bytes of a word gives the word.
pub proof fn lemma_le32_bytes(x: u32)
    ensures
        le32(le32_bytes(x), 0) == x as int,
{
    let s = le32_bytes(x);
    assert(s[0] as int == x % 256);
    assert(s[1] as int == (x / 256) % 256);
    assert(s[2] as int == (x / 65536) % 256);
    assert(s[3] as int == x / 16777216);
    assert(x as int == x % 256 + 256 * ((x / 256) % 256) + 65536 * ((x / 65536) % 256)
        + 16777216 * (x / 16777216)) by (nonlinear_arith);
}

/// Writes the little-endian bytes of `x` at `p`.
fn store_u32(m: &mut [u8], p: usize, x: u32)
    requires
        p + 4 <= old(m)@.len(),
    ensures
        final(m)@ == splice(old(m)@, p as int, le32_bytes(x)),
{
    let ghost m0 = m@;
    let _n = m.len();
    m.set(p, (x % 256) as u8);
    m.set(p + 1, ((x / 256) % 256) as u8);
    m.set(p + 2, ((x / 65536) % 256) as u8);
    m.set(p + 3, (x / 16777216) as u8);
    assert(m@ =~= splice(m0, p as int, le32_bytes(x)));
}

/// Reads the descriptor at `ptr` and checks it.
pub fn get_region(m: &[u8], ptr: u32) -> (r: VmResult<Region>)
    ensures
        match r {
            Ok(reg) => resolve_region(m@, ptr) == Some(reg),
            Err(e) => resolve_region(m@, ptr) is None && e is Custom && !host_error_text(
                e->Custom_msg@,
            ),
        },
{
    if ptr as usize > m.len() || m.len() - (ptr as usize) < 12 {
        let e = VmError::custom("Could not dereference this pointer to a Region");
        proof {
            reveal_strlit("Could not dereference this pointer to a Region");
            lemma_not_host_text(e->Custom_msg@);
        }
        return Err(e);
    }
    let p = ptr as usize;
    let region = Region {
        offset: load_u32(m, p),
        capacity: load_u32(m, p + 4),
        length: load_u32(m, p + 8),
    };
    match validate_region(&region) {
        Ok(()) => Ok(region),
        Err(e) => Err(e),
    }
}

/// Checks a descriptor: non-zero offset, length within capacity, end within
/// 32 bits.
pub fn validate_region(region: &Region) -> (r: VmResult<()>)
    ensures
        r is Ok <==> region_valid(*region),
        r matches Err(e) ==> e is Custom && !host_error_text(e->Custom_msg@),
{
    if region.offset == 0 {
        let e = VmError::custom("zero offset");
        proof {
            reveal_strlit("zero offset");
            lemma_not_host_text(e->Custom_msg@);
        }
        return Err(e);
    }
    if region.length > region.capacity {
        let e = VmError::custom("length > capacity");
        proof {
            reveal_strlit("length > capacity");
            lemma_not_host_text(e->Custom_msg@);
        }
        return Err(e);
    }
    if region.capacity > (u32::MAX - region.offset) {
        let e = VmError::custom("out of range");
        proof {
            reveal_strlit("out of range");
            lemma_not_host_text(e->Custom_msg@);
        }
        return Err(e);
    }
    Ok(())
}

/// Copies out the bytes in use of the region at `ptr`; fails when the
/// descriptor is unusable, its length exceeds `max_length`, or its span
/// leaves memory.
pub fn read_region(m: &[u8], ptr: u32, max_length: usize) -> (r: VmResult<Vec<u8>>)
    ensures
        match r {
            Ok(v) => region_contents(m@, ptr, max_length) == Some(v@),
            Err(e) => region_contents(m@, ptr, max_length) is None && e is Custom
                && !host_error_text(e->Custom_msg@),
        },
{
    let region = get_region(m, ptr)?;
    if region.length as usize > max_length {
        let e = VmError::custom("region_length_too_big");
        proof {
            reveal_strlit("region_length_too_big");
            lemma_not_host_text(e->Custom_msg@);
        }
        return Err(e);
    }
    let start = region.offset as usize;
    let len = region.length as usize;
    if start > m.len() || m.len() - start < len {
        let e = VmError::custom("Tried to access memory outside of the guest memory");
        proof {
            reveal_strlit("Tried to access memory outside of the guest memory");
            lemma_not_host_text(e->Custom_msg@);
        }
        return Err(e);
    }
    let mut result: Vec<u8> = Vec::with_capacity(len);
    let mut i: usize = 0;
    let mlen = m.len();
    while i < len
        invariant
            start + len <= m@.len(),
            m@.len() == mlen,
            i <= len,
            result@ == m@.subrange(start as int, start + i),
        decreases len - i,
    {
        result.push(m[start + i]);
        i = i + 1;
        assert(result@ =~= m@.subrange(start as int, start + i));
    }
    Ok(result)
}

/// Like `read_region`, but the pointer 0 stands for an absent value.
pub fn maybe_read_region(m: &[u8], ptr: u32, max_length: usize) -> (r: VmResult<Option<Vec<u8>>>)
    ensures
        ptr == 0 ==> r matches Ok(None),
        ptr != 0 ==> match r {
            Ok(Some(v)) => region_contents(m@, ptr, max_length) == Some(v@),
            Ok(None) => false,
            Err(e) => region_contents(m@, ptr, max_length) is None && e is Custom,
        },
{
    if ptr == 0 {
        Ok(None)
    } else {
        match read_region(m, ptr, max_length) {
            Ok(v) => Ok(Some(v)),
            Err(e) => Err(e),
        }
    }
}

/// Writes `data` into the region at `ptr` and sets its length. Fails, with
/// memory untouched, when the descriptor is unusable, `data` is longer than
/// the capacity, or the span leaves memory.
pub fn write_region(m: &mut [u8], ptr: u32, data: &[u8]) -> (r: VmResult<()>)
    ensures
        match r {
            Ok(()) => region_written(old(m)@, ptr, data@) == Some(final(m)@),
            Err(e) => region_written(old(m)@, ptr, data@) is None && e is Custom && final(m)@
                == old(m)@,
        },
        (resolve_region(old(m)@, ptr) matches Some(reg) && data@.len() > reg.capacity) ==> (r matches Err(
            e,
        ) && e->Custom_msg@ == "region_too_small"@),
{
    let region = get_region(m, ptr)?;
    if data.len() > region.capacity as usize {
        return Err(VmError::custom("region_too_small"));
    }
    let start = region.offset as usize;
    if start > m.len() || m.len() - start < region.capacity as usize {
        return Err(VmError::custom("Tried to access memory outside of the guest memory"));
    }
    let ghost m0 = m@;
    let n = data.len();
    let mut i: usize = 0;
    let mlen = m.len();
    while i < n
        invariant
            start + n <= m@.len(),
            m@.len() == mlen,
            m0.len() == m@.len(),
            i <= n,
            n == data@.len(),
            m@ == splice(m0, start as int, data@.subrange(0, i as int)),
        decreases n - i,
    {
        m.set(start + i, data[i]);
        i = i + 1;
        assert(m@ =~= splice(m0, start as int, data@.subrange(0, i as int)));
    }
    assert(data@.subrange(0, n as int) =~= data@);
    store_u32(m, ptr as usize + 8, n as u32);
    Ok(())
}

/// Reads the little-endian word at `ptr`.
pub fn read_u32(m: &[u8], ptr: u32) -> (r: VmResult<u32>)
    ensures
        match r {
            Ok(x) => ptr + 4 <= m@.len() && x as int == le32(m@, ptr as int),
            Err(e) => ptr + 4 > m@.len() && e is Custom,
        },
{
    if ptr as usize > m.len() || m.len() - (ptr as usize) < 4 {
        return Err(VmError::custom("Could not dereference this pointer to u32"));
    }
    Ok(load_u32(m, ptr as usize))
}

/// Converts a length to a 32-bit word.
pub fn to_u32(input: usize) -> (r: VmResult<u32>)
    ensures
        match r {
            Ok(x) => x as int == input as int,
            Err(e) => input > u32::MAX && e is Custom && e->Custom_msg@ == "conversion err"@,
        },
{
    if input > u32::MAX as usize {
        Err(VmError::custom("conversion err"))
    } else {
        Ok(input as u32)
    }
}

/// Converts a guest integer, as returned by `allocate`, to a pointer.
pub fn ref_to_u32(input: &i32) -> (r: VmResult<u32>)
    ensures
        match r {
            Ok(x) => *input >= 0 && x as int == *input as int,
            Err(e) => *input < 0 && e is Custom && e->Custom_msg@ == "Couldn't convert from i32 to u32. Input: -"@
                + decimal((-(*input as int)) as nat),
        },
{
    if *input < 0 {
        let magnitude = (0i64 - (*input as i64)) as u32;
        let mut msg = String::from_str("Couldn't convert from i32 to u32. Input: -");
        let digits = decimal_text(magnitude);
        msg.append(digits.as_str());
        Err(VmError::custom_string(msg))
    } else {
        Ok(*input as u32)
    }
}

/// Writes `data` into the region that the guest's `allocate` returned as
/// `target`, and returns its pointer. A zero or negative pointer, or a region
/// that cannot take the data, fails with memory untouched.
pub fn place_in_region(m: &mut [u8], target: i32, data: &[u8]) -> (r: VmResult<u32>)
    ensures
        match r {
            Ok(p) => {
                &&& p as int == target as int
                &&& p != 0
                &&& region_written(old(m)@, p, data@) == Some(final(m)@)
            },
            Err(e) => e is Custom && final(m)@ == old(m)@,
        },
        target == 0 ==> r is Err,
{
    let target_ptr = ref_to_u32(&target)?;
    if target_ptr == 0 {
        return Err(VmError::custom("target pointer is zero"));
    }
    write_region(m, target_ptr, data)?;
    Ok(target_ptr)
}

/// A descriptor with a zero offset, a length over its capacity, or an end
/// past 32 bits cannot be read.
pub proof fn lemma_invalid_region_unreadable(m: Seq<u8>, ptr: u32, max_length: usize)
    requires
        ptr as int + 12 <= m.len(),
        ({
            let r = region_at(m, ptr as int);
            r.offset == 0 || r.length > r.capacity || r.offset as int + r.capacity as int
                > u32::MAX as int
        }),
    ensures
        region_contents(m, ptr, max_length) is None,
{
}

/// A payload longer than the capacity of the region is never written.
pub proof fn lemma_oversized_write_rejected(m: Seq<u8>, ptr: u32, data: Seq<u8>)
    requires
        ptr as int + 12 <= m.len(),
        data.len() > region_at(m, ptr as int).capacity,
    ensures
        region_written(m, ptr, data) is None,
{
}

/// The little-endian 16-bit units of some bytes; an odd last byte is left out.
pub open spec fn le16_units(b: Seq<u8>) -> Seq<u16> {
    Seq::new(b.len() / 2, |i: int| le16_at(b, i))
}

/// The text of `len` bytes of UTF-16 at `ptr`, when they lie in memory and
/// are well formed.
pub open spec fn utf16_at(m: Seq<u8>, ptr: u32, len: u32) -> Option<Seq<char>> {
    if ptr as int + len as int > m.len() || ptr as int >= m.len() {
        None
    } else {
        utf16_text(le16_units(m.subrange(ptr as int, ptr as int + len as int)))
    }
}

/// Reads `len` bytes of little-endian UTF-16 text at `ptr`.
pub fn read_utf16_string(m: &[u8], ptr: u32, len: u32) -> (r: VmResult<String>)
    ensures
        match r {
            Ok(s) => utf16_at(m@, ptr, len) == Some(s@),
            Err(e) => utf16_at(m@, ptr, len) is None && e is Custom,
        },
{
    let start = ptr as usize;
    let n = len as usize;
    if start >= m.len() || m.len() - start < n {
        return Err(VmError::custom("Could not dereference this pointer to [u8]"));
    }
    let even = n - n % 2;
    let mut bytes: Vec<u8> = Vec::with_capacity(even);
    let mut i: usize = 0;
    let mlen = m.len();
    while i < even
        invariant
            m@.len() == mlen,
            start + n <= m@.len(),
            even <= n,
            i <= even,
            bytes@ == m@.subrange(start as int, start + i),
        decreases even - i,
    {
        bytes.push(m[start + i]);
        i = i + 1;
        assert(bytes@ =~= m@.subrange(start as int, start + i));
    }
    let mut units: Vec<u16> = vec![0u16; even / 2];
    read_u16_le(bytes.as_slice(), units.as_mut_slice());
    let ghost whole = m@.subrange(start as int, start + n);
    assert(units@ =~= le16_units(whole));
    match string_from_utf16(units.as_slice()) {
        Some(s) => Ok(s),
        None => Err(VmError::custom("Could not dereference this pointer to [u8]")),
    }
}

} // verus!
