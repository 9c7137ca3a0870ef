use vstd::prelude::*;

verus! {

/// Base gas paid for every promise put on the queue.
pub const BASE_PROMISE_COST: u64 = 100000;

/// Gas charged before a deploy runs any guest code.
pub const BASE_DEPLOY_COST: u64 = 3000000;

/// Gas charged before a call runs any guest code.
pub const BASE_CALL_COST: u64 = 100000;

/// Fixed part of the gas paid by `bytes_to_hex`; one more unit per input byte.
pub const BASE_BYTES_TO_HEX_COST: u64 = 10000;

/// Largest storage key read from the guest.
pub const MAX_STORAGE_KEY_SIZE: usize = 131072;

/// Largest storage value read from the guest.
pub const MAX_STORAGE_VALUE_SIZE: usize = 131072;

/// Largest address read from the guest.
pub const MAX_ADDRESS_SIZE: usize = 20;

/// Largest code blob read from the guest.
pub const MAX_CODE_SIZE: usize = 1048576;

/// Largest amount read from the guest.
pub const MAX_IDNA_SIZE: usize = 32;

/// Largest string read from the guest.
pub const MAX_STRING_SIZE: usize = 4096;

/// Largest argument blob read from the guest.
pub const MAX_ARGS_SIZE: usize = 10240;

/// Largest return value read from the guest.
pub const MAX_RETURN_VALUE_SIZE: usize = 65536;

} // verus!
