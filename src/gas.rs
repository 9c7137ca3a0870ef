use vstd::prelude::*;

use crate::errors::{host_error_text, VmError, VmResult};
use crate::backend::BackendError;
use crate::types::gas_left_of;

verus! {

/// Debits `cost` from the counter `left`, saturating at zero. Reaching zero
/// is exhaustion: the call that paid the cost fails with `OutOfGas`.
pub fn process_gas_info(left: &mut u64, cost: u64) -> (r: VmResult<()>)
    ensures
        *final(left) == gas_left_of(*old(left), cost),
        r is Ok <==> *final(left) > 0,
        r is Err ==> r == Err::<(), VmError>(VmError::OutOfGas),
{
    *left = left.saturating_sub(cost);
    if *left == 0 {
        Err(VmError::out_of_gas())
    } else {
        Ok(())
    }
}

/// The gas bookkeeping of a host call: the counter never grows, a call that
/// succeeds leaves some gas, and a debit that empties the counter fails the
/// call with `OutOfGas`.
pub open spec fn metered<T>(r: VmResult<T>, before: u64, after: u64) -> bool {
    &&& after <= before
    &&& r is Ok ==> after > 0
    &&& (after == 0 && before > 0) ==> r matches Err(VmError::OutOfGas)
}

/// Debits what a host primitive charged, then surfaces its outcome.
pub fn settle_gas<T>(res: Result<T, BackendError>, left: &mut u64, cost: u64) -> (r: VmResult<T>)
    ensures
        *final(left) == gas_left_of(*old(left), cost),
        metered(r, *old(left), *final(left)),
        *final(left) > 0 ==> match res {
            Ok(v) => r == Ok::<T, VmError>(v),
            Err(_) => r matches Err(e) && e is Custom,
        },
        r matches Err(e) ==> e is OutOfGas || (e is Custom && host_error_text(e->Custom_msg@)),
{
    process_gas_info(left, cost)?;
    match res {
        Ok(v) => Ok(v),
        Err(e) => Err(VmError::from_backend(e)),
    }
}

} // verus!
