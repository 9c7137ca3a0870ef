//! What a guest module may contain: no floating-point, SIMD, bulk-memory,
//! reference-type, thread or tail-call operators, and at most a fixed number
//! of memory pages. Operators are judged by their names.
use vstd::prelude::*;
use vstd::string::*;

use crate::errors::{VmError, VmResult};

verus! {

/// The most pages of linear memory that a guest may have.
pub const MAX_MEMORY_PAGES: u32 = 100;

/// Parts of operator names that mark the refused families.
pub open spec fn forbidden_markers() -> Seq<&'static str> {
    seq![
        "F32", "F64", "V128", "I8x16", "I16x8", "I32x4", "I64x2", "Atomic", "MemoryCopy",
        "MemoryFill", "MemoryInit", "DataDrop", "TableCopy", "TableInit", "ElemDrop", "TableGet",
        "TableSet", "TableGrow", "TableSize", "TableFill", "RefNull", "RefIsNull", "RefFunc",
        "ReturnCall",
    ]
}

/// `part` occurs in `text`.
pub open spec fn occurs_in(part: Seq<char>, text: Seq<char>) -> bool {
    exists|i: int| 0 <= i && i + part.len() <= text.len() && #[trigger] text.subrange(i, i + part.len()) == part
}

/// An operator may stand in a guest when its name holds no marker.
pub open spec fn operator_allowed(name: Seq<char>) -> bool {
    forall|k: int| 0 <= k < forbidden_markers().len() ==> !occurs_in(#[trigger] forbidden_markers()[k]@, name)
}

/// `part` occurs in `text` at `i`.
fn occurs_at(part: &str, text: &str, i: usize, plen: usize, tlen: usize) -> (r: bool)
    requires
        plen == part@.len(),
        tlen == text@.len(),
        i + plen <= tlen,
    ensures
        r <==> text@.subrange(i as int, i + plen) == part@,
{
    let mut k: usize = 0;
    while k < plen
        invariant
            plen == part@.len(),
            tlen == text@.len(),
            i + plen <= tlen,
            k <= plen,
            forall|j: int| 0 <= j < k ==> text@[i + j] == part@[j],
        decreases plen - k,
    {
        if text.get_char(i + k) != part.get_char(k) {
            assert(text@.subrange(i as int, i + plen)[k as int] != part@[k as int]);
            return false;
        }
        k = k + 1;
    }
    assert(text@.subrange(i as int, i + plen) =~= part@);
    true
}

/// Whether `part` occurs in `text`.
pub fn contains_text(part: &str, text: &str) -> (r: bool)
    ensures
        r <==> occurs_in(part@, text@),
{
    let plen = part.unicode_len();
    let tlen = text.unicode_len();
    if plen > tlen {
        return false;
    }
    let last = tlen - plen;
    let mut i: usize = 0;
    loop
        invariant
            plen == part@.len(),
            tlen == text@.len(),
            last == tlen - plen,
            i <= last,
            forall|j: int| 0 <= j < i ==> #[trigger] text@.subrange(j, j + plen) != part@,
        ensures
            forall|j: int| 0 <= j <= last ==> #[trigger] text@.subrange(j, j + plen) != part@,
        decreases last - i,
    {
        if occurs_at(part, text, i, plen, tlen) {
            return true;
        }
        if i == last {
            break;
        }
        i = i + 1;
    }
    proof {
        assert forall|j: int| 0 <= j && j + part@.len() <= text@.len() implies #[trigger] text@.subrange(
            j,
            j + part@.len(),
        ) != part@ by {
            assert(j <= last);
        }
    }
    false
}

/// Whether an operator, named as the compiler prints it, may stand in a guest.
pub fn check_operator(name: &str) -> (r: VmResult<()>)
    ensures
        r is Ok <==> operator_allowed(name@),
        r matches Err(e) ==> e is Custom,
{
    let markers: Vec<&str> = vec![
        "F32", "F64", "V128", "I8x16", "I16x8", "I32x4", "I64x2", "Atomic", "MemoryCopy",
        "MemoryFill", "MemoryInit", "DataDrop", "TableCopy", "TableInit", "ElemDrop", "TableGet",
        "TableSet", "TableGrow", "TableSize", "TableFill", "RefNull", "RefIsNull", "RefFunc",
        "ReturnCall",
    ];
    assert(markers@ =~= forbidden_markers());
    let mut k: usize = 0;
    while k < markers.len()
        invariant
            markers@ == forbidden_markers(),
            k <= markers@.len(),
            forall|j: int| 0 <= j < k ==> !occurs_in(#[trigger] forbidden_markers()[j]@, name@),
        decreases markers@.len() - k,
    {
        if contains_text(markers[k], name) {
            return Err(VmError::custom("operator is not allowed"));
        }
        k = k + 1;
    }
    Ok(())
}

/// The memory limits that a guest gets: its own minimum, and its own maximum
/// or, when it sets none, the page limit. Refused when either exceeds the
/// page limit.
pub fn limit_memory(minimum: u32, maximum: Option<u32>) -> (r: VmResult<u32>)
    ensures
        match r {
            Ok(max) => {
                &&& minimum <= MAX_MEMORY_PAGES
                &&& max <= MAX_MEMORY_PAGES
                &&& max == match maximum {
                    Some(m) => m,
                    None => MAX_MEMORY_PAGES,
                }
            },
            Err(e) => e is Custom && (minimum > MAX_MEMORY_PAGES || (maximum matches Some(m) && m
                > MAX_MEMORY_PAGES)),
        },
{
    if minimum > MAX_MEMORY_PAGES {
        return Err(VmError::custom("Minimum exceeds the allowed memory limit"));
    }
    match maximum {
        Some(m) => if m > MAX_MEMORY_PAGES {
            Err(VmError::custom("Maximum exceeds the allowed memory limit"))
        } else {
            Ok(m)
        },
        None => Ok(MAX_MEMORY_PAGES),
    }
}

} // verus!
