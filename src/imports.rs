//! The functions that the guest imports. Each one reads its arguments out of
//! guest memory, hands the remaining gas to the host, calls one host
//! primitive, debits what that charged, and returns the reply. A reply of
//! bytes goes back to the guest through its allocator; `None` stands for the
//! null pointer.
use vstd::prelude::*;
use vstd::string::*;

use crate::adapters::{hex_digit, hex_encode, lossy_string, utf8_lossy};
use crate::backend::{Backend, HostCall};
use crate::costs::{
    BASE_PROMISE_COST,
    BASE_BYTES_TO_HEX_COST, MAX_ADDRESS_SIZE, MAX_ARGS_SIZE, MAX_CODE_SIZE, MAX_IDNA_SIZE,
    MAX_STORAGE_KEY_SIZE, MAX_STORAGE_VALUE_SIZE, MAX_STRING_SIZE,
};
use crate::environment::{callback_action, Env};
use crate::errors::{host_error_text, VmError, VmResult};
use crate::gas::{metered, process_gas_info, settle_gas};
use crate::memory::{le32, read_region, read_u32, read_utf16_string, region_contents, region_written, utf16_at, write_region};
use crate::types::{
    Action, DeployContractAction, FunctionCallAction, GetIdentityAction, PromiseResult,
    ReadContractDataAction, ReadShardedDataAction, TransferAction,
};

verus! {

/// The call was refused before it reached the host: a custom error, no gas
/// spent.
pub open spec fn refused<T>(r: VmResult<T>, before: u64, after: u64) -> bool {
    &&& (r matches Err(e) && e is Custom)
    &&& after == before
}

/// A failure of the engine's own, before the host was asked for anything: a
/// custom error that the host did not report, with no gas spent.
pub open spec fn own_refusal<T>(r: VmResult<T>, before: u64, after: u64) -> bool {
    &&& (r matches Err(e) && e is Custom && !host_error_text(e->Custom_msg@))
    &&& after == before
}

/// The frame state that a host call does not touch.
pub open spec fn frame_kept<B: Backend>(a: Env<B>, b: Env<B>) -> bool {
    &&& a.pending_promises@ == b.pending_promises@
    &&& a.promise_result == b.promise_result
    &&& a.gas_limit == b.gas_limit
}

/// Tells the host how much gas is left before it does any work.
pub fn set_left_gas_to_backend<B: Backend>(env: &mut Env<B>, gas: u64) -> (r: VmResult<()>)
    ensures
        frame_kept(*old(env), *final(env)),
        final(env).backend.requests() == old(env).backend.requests(),
        r matches Err(e) ==> e is Custom && host_error_text(e->Custom_msg@),
{
    match env.backend.set_remaining_gas(gas).0 {
        Ok(()) => Ok(()),
        Err(e) => Err(VmError::from_backend(e)),
    }
}

/// Reads an optional argument: the pointer 0 stands for no bytes.
fn read_optional(m: &[u8], ptr: u32, max_length: usize) -> (r: VmResult<Vec<u8>>)
    ensures
        ptr == 0 ==> (r matches Ok(v) && v@.len() == 0),
        ptr != 0 ==> match r {
            Ok(v) => region_contents(m@, ptr, max_length) == Some(v@),
            Err(e) => region_contents(m@, ptr, max_length) is None && e is Custom,
        },
{
    if ptr > 0 {
        read_region(m, ptr, max_length)
    } else {
        Ok(Vec::new())
    }
}

pub fn set_storage<B: Backend>(env: &mut Env<B>, m: &[u8], gas: &mut u64, key: u32, value: u32) -> (r:
    VmResult<()>)
    ensures
        frame_kept(*old(env), *final(env)),
        metered(r, *old(gas), *final(gas)),
        own_refusal(r, *old(gas), *final(gas)) ==> (region_contents(m@, key, MAX_STORAGE_KEY_SIZE) is None || region_contents(m@, value, MAX_STORAGE_VALUE_SIZE) is None),
        region_contents(m@, key, MAX_STORAGE_KEY_SIZE) is None ==> refused(r, *old(gas), *final(gas)),
        region_contents(m@, value, MAX_STORAGE_VALUE_SIZE) is None ==> refused(
            r,
            *old(gas),
            *final(gas),
        ),
{
    let key = read_region(m, key, MAX_STORAGE_KEY_SIZE)?;
    let value = read_region(m, value, MAX_STORAGE_VALUE_SIZE)?;
    set_left_gas_to_backend(env, *gas)?;
    let (result, cost) = env.backend.set_storage(key, value);
    settle_gas(result, gas, cost)
}

pub fn get_storage<B: Backend>(env: &mut Env<B>, m: &[u8], gas: &mut u64, key: u32) -> (r: VmResult<
    Option<Vec<u8>>,
>)
    ensures
        frame_kept(*old(env), *final(env)),
        metered(r, *old(gas), *final(gas)),
        own_refusal(r, *old(gas), *final(gas)) ==> (region_contents(m@, key, MAX_STORAGE_KEY_SIZE) is None),
        region_contents(m@, key, MAX_STORAGE_KEY_SIZE) is None ==> refused(r, *old(gas), *final(gas)),
{
    let key = read_region(m, key, MAX_STORAGE_KEY_SIZE)?;
    set_left_gas_to_backend(env, *gas)?;
    let (result, cost) = env.backend.get_storage(key);
    settle_gas(result, gas, cost)
}

pub fn remove_storage<B: Backend>(env: &mut Env<B>, m: &[u8], gas: &mut u64, key: u32) -> (r: VmResult<
    (),
>)
    ensures
        frame_kept(*old(env), *final(env)),
        metered(r, *old(gas), *final(gas)),
        own_refusal(r, *old(gas), *final(gas)) ==> (region_contents(m@, key, MAX_STORAGE_KEY_SIZE) is None),
        region_contents(m@, key, MAX_STORAGE_KEY_SIZE) is None ==> refused(r, *old(gas), *final(gas)),
{
    let key = read_region(m, key, MAX_STORAGE_KEY_SIZE)?;
    set_left_gas_to_backend(env, *gas)?;
    let (result, cost) = env.backend.remove_storage(key);
    settle_gas(result, gas, cost)
}

pub fn block_timestamp<B: Backend>(env: &mut Env<B>, gas: &mut u64) -> (r: VmResult<i64>)
    ensures
        frame_kept(*old(env), *final(env)),
        metered(r, *old(gas), *final(gas)),
        !own_refusal(r, *old(gas), *final(gas)),
{
    set_left_gas_to_backend(env, *gas)?;
    let (result, cost) = env.backend.block_timestamp();
    settle_gas(result, gas, cost)
}

pub fn block_number<B: Backend>(env: &mut Env<B>, gas: &mut u64) -> (r: VmResult<u64>)
    ensures
        frame_kept(*old(env), *final(env)),
        metered(r, *old(gas), *final(gas)),
        !own_refusal(r, *old(gas), *final(gas)),
{
    set_left_gas_to_backend(env, *gas)?;
    let (result, cost) = env.backend.block_number();
    settle_gas(result, gas, cost)
}

pub fn block_seed<B: Backend>(env: &mut Env<B>, gas: &mut u64) -> (r: VmResult<Vec<u8>>)
    ensures
        frame_kept(*old(env), *final(env)),
        metered(r, *old(gas), *final(gas)),
        !own_refusal(r, *old(gas), *final(gas)),
{
    set_left_gas_to_backend(env, *gas)?;
    let (result, cost) = env.backend.block_seed();
    settle_gas(result, gas, cost)
}

pub fn min_fee_per_gas<B: Backend>(env: &mut Env<B>, gas: &mut u64) -> (r: VmResult<Vec<u8>>)
    ensures
        frame_kept(*old(env), *final(env)),
        metered(r, *old(gas), *final(gas)),
        !own_refusal(r, *old(gas), *final(gas)),
{
    set_left_gas_to_backend(env, *gas)?;
    let (result, cost) = env.backend.min_fee_per_gas();
    settle_gas(result, gas, cost)
}

pub fn balance<B: Backend>(env: &mut Env<B>, gas: &mut u64) -> (r: VmResult<Vec<u8>>)
    ensures
        frame_kept(*old(env), *final(env)),
        metered(r, *old(gas), *final(gas)),
        !own_refusal(r, *old(gas), *final(gas)),
{
    set_left_gas_to_backend(env, *gas)?;
    let (result, cost) = env.backend.balance();
    settle_gas(result, gas, cost)
}

pub fn network_size<B: Backend>(env: &mut Env<B>, gas: &mut u64) -> (r: VmResult<u64>)
    ensures
        frame_kept(*old(env), *final(env)),
        metered(r, *old(gas), *final(gas)),
        !own_refusal(r, *old(gas), *final(gas)),
{
    set_left_gas_to_backend(env, *gas)?;
    let (result, cost) = env.backend.network_size();
    settle_gas(result, gas, cost)
}

/// Appends a log record; the pointer 0 stands for empty arguments.
pub fn event<B: Backend>(env: &mut Env<B>, m: &[u8], gas: &mut u64, event_name: u32, args: u32) -> (r:
    VmResult<()>)
    ensures
        frame_kept(*old(env), *final(env)),
        metered(r, *old(gas), *final(gas)),
        own_refusal(r, *old(gas), *final(gas)) ==> (region_contents(m@, event_name, MAX_STRING_SIZE) is None || (args != 0 && region_contents(m@, args, MAX_ARGS_SIZE) is None)),
        region_contents(m@, event_name, MAX_STRING_SIZE) is None ==> refused(
            r,
            *old(gas),
            *final(gas),
        ),
        args != 0 && region_contents(m@, args, MAX_ARGS_SIZE) is None ==> refused(
            r,
            *old(gas),
            *final(gas),
        ),
{
    let event_name = read_region(m, event_name, MAX_STRING_SIZE)?;
    let args = read_optional(m, args, MAX_ARGS_SIZE)?;
    set_left_gas_to_backend(env, *gas)?;
    let (result, cost) = env.backend.event(event_name.as_slice(), args.as_slice());
    settle_gas(result, gas, cost)
}

pub fn epoch<B: Backend>(env: &mut Env<B>, gas: &mut u64) -> (r: VmResult<i32>)
    ensures
        frame_kept(*old(env), *final(env)),
        metered(r, *old(gas), *final(gas)),
        !own_refusal(r, *old(gas), *final(gas)),
{
    set_left_gas_to_backend(env, *gas)?;
    let (result, cost) = env.backend.epoch();
    let e = settle_gas(result, gas, cost)?;
    Ok(e as i32)
}

pub fn pay_amount<B: Backend>(env: &mut Env<B>, gas: &mut u64) -> (r: VmResult<Vec<u8>>)
    ensures
        frame_kept(*old(env), *final(env)),
        metered(r, *old(gas), *final(gas)),
        !own_refusal(r, *old(gas), *final(gas)),
{
    set_left_gas_to_backend(env, *gas)?;
    let (result, cost) = env.backend.pay_amount();
    settle_gas(result, gas, cost)
}

pub fn caller<B: Backend>(env: &mut Env<B>, gas: &mut u64) -> (r: VmResult<Vec<u8>>)
    ensures
        frame_kept(*old(env), *final(env)),
        metered(r, *old(gas), *final(gas)),
        !own_refusal(r, *old(gas), *final(gas)),
{
    set_left_gas_to_backend(env, *gas)?;
    let (result, cost) = env.backend.caller();
    settle_gas(result, gas, cost)
}

pub fn original_caller<B: Backend>(env: &mut Env<B>, gas: &mut u64) -> (r: VmResult<Vec<u8>>)
    ensures
        frame_kept(*old(env), *final(env)),
        metered(r, *old(gas), *final(gas)),
        !own_refusal(r, *old(gas), *final(gas)),
{
    set_left_gas_to_backend(env, *gas)?;
    let (result, cost) = env.backend.original_caller();
    settle_gas(result, gas, cost)
}

pub fn own_addr<B: Backend>(env: &mut Env<B>, gas: &mut u64) -> (r: VmResult<Vec<u8>>)
    ensures
        frame_kept(*old(env), *final(env)),
        metered(r, *old(gas), *final(gas)),
        !own_refusal(r, *old(gas), *final(gas)),
{
    set_left_gas_to_backend(env, *gas)?;
    let (result, cost) = env.backend.own_addr();
    settle_gas(result, gas, cost)
}

pub fn own_code<B: Backend>(env: &mut Env<B>, gas: &mut u64) -> (r: VmResult<Vec<u8>>)
    ensures
        frame_kept(*old(env), *final(env)),
        metered(r, *old(gas), *final(gas)),
        !own_refusal(r, *old(gas), *final(gas)),
{
    set_left_gas_to_backend(env, *gas)?;
    let (result, cost) = env.backend.own_code();
    settle_gas(result, gas, cost)
}

pub fn code_hash<B: Backend>(env: &mut Env<B>, gas: &mut u64) -> (r: VmResult<Vec<u8>>)
    ensures
        frame_kept(*old(env), *final(env)),
        metered(r, *old(gas), *final(gas)),
        !own_refusal(r, *old(gas), *final(gas)),
{
    set_left_gas_to_backend(env, *gas)?;
    let (result, cost) = env.backend.code_hash();
    settle_gas(result, gas, cost)
}

pub fn global_state<B: Backend>(env: &mut Env<B>, gas: &mut u64) -> (r: VmResult<Vec<u8>>)
    ensures
        frame_kept(*old(env), *final(env)),
        metered(r, *old(gas), *final(gas)),
        !own_refusal(r, *old(gas), *final(gas)),
{
    set_left_gas_to_backend(env, *gas)?;
    let (result, cost) = env.backend.global_state();
    settle_gas(result, gas, cost)
}

pub fn block_header<B: Backend>(env: &mut Env<B>, gas: &mut u64, height: u64) -> (r: VmResult<
    Option<Vec<u8>>,
>)
    ensures
        frame_kept(*old(env), *final(env)),
        metered(r, *old(gas), *final(gas)),
        !own_refusal(r, *old(gas), *final(gas)),
{
    set_left_gas_to_backend(env, *gas)?;
    let (result, cost) = env.backend.block_header(height);
    settle_gas(result, gas, cost)
}

/// Derives the address of a contract from its code, arguments and nonce;
/// the pointer 0 stands for empty arguments or nonce.
pub fn contract_addr<B: Backend>(
    env: &mut Env<B>,
    m: &[u8],
    gas: &mut u64,
    code: u32,
    args: u32,
    nonce: u32,
) -> (r: VmResult<Vec<u8>>)
    ensures
        frame_kept(*old(env), *final(env)),
        metered(r, *old(gas), *final(gas)),
        own_refusal(r, *old(gas), *final(gas)) ==> (region_contents(m@, code, MAX_CODE_SIZE) is None || (args != 0 && region_contents(m@, args, MAX_ARGS_SIZE) is None) || (nonce != 0 && region_contents(m@, nonce, MAX_STRING_SIZE) is None)),
        region_contents(m@, code, MAX_CODE_SIZE) is None ==> refused(r, *old(gas), *final(gas)),
{
    let code = read_region(m, code, MAX_CODE_SIZE)?;
    let args = read_optional(m, args, MAX_ARGS_SIZE)?;
    let nonce = read_optional(m, nonce, MAX_STRING_SIZE)?;
    set_left_gas_to_backend(env, *gas)?;
    let (result, cost) = env.backend.contract_addr(code.as_slice(), args.as_slice(), nonce.as_slice());
    settle_gas(result, gas, cost)
}

/// Like `contract_addr`, from the hash of the code.
pub fn contract_addr_by_hash<B: Backend>(
    env: &mut Env<B>,
    m: &[u8],
    gas: &mut u64,
    hash: u32,
    args: u32,
    nonce: u32,
) -> (r: VmResult<Vec<u8>>)
    ensures
        frame_kept(*old(env), *final(env)),
        metered(r, *old(gas), *final(gas)),
        own_refusal(r, *old(gas), *final(gas)) ==> (region_contents(m@, hash, MAX_CODE_SIZE) is None || (args != 0 && region_contents(m@, args, MAX_ARGS_SIZE) is None) || (nonce != 0 && region_contents(m@, nonce, MAX_STRING_SIZE) is None)),
        region_contents(m@, hash, MAX_CODE_SIZE) is None ==> refused(r, *old(gas), *final(gas)),
{
    let hash = read_region(m, hash, MAX_CODE_SIZE)?;
    let args = read_optional(m, args, MAX_ARGS_SIZE)?;
    let nonce = read_optional(m, nonce, MAX_STRING_SIZE)?;
    set_left_gas_to_backend(env, *gas)?;
    let (result, cost) = env.backend.contract_addr_by_hash(
        hash.as_slice(),
        args.as_slice(),
        nonce.as_slice(),
    );
    settle_gas(result, gas, cost)
}

pub fn keccak256<B: Backend>(env: &mut Env<B>, m: &[u8], gas: &mut u64, ptr: u32) -> (r: VmResult<
    Vec<u8>,
>)
    ensures
        frame_kept(*old(env), *final(env)),
        metered(r, *old(gas), *final(gas)),
        own_refusal(r, *old(gas), *final(gas)) ==> (region_contents(m@, ptr, MAX_ARGS_SIZE) is None),
        region_contents(m@, ptr, MAX_ARGS_SIZE) is None ==> refused(r, *old(gas), *final(gas)),
{
    let data = read_region(m, ptr, MAX_ARGS_SIZE)?;
    set_left_gas_to_backend(env, *gas)?;
    let (result, cost) = env.backend.keccak256(data.as_slice());
    settle_gas(result, gas, cost)
}

/// The lower-case hexadecimal text of the bytes at `ptr`, for a fixed cost
/// plus one unit per byte.
pub fn bytes_to_hex<B: Backend>(env: &mut Env<B>, m: &[u8], gas: &mut u64, ptr: u32) -> (r: VmResult<
    String,
>)
    ensures
        frame_kept(*old(env), *final(env)),
        metered(r, *old(gas), *final(gas)),
        own_refusal(r, *old(gas), *final(gas)) ==> (region_contents(m@, ptr, MAX_ARGS_SIZE) is None),
        region_contents(m@, ptr, MAX_ARGS_SIZE) is None ==> refused(r, *old(gas), *final(gas)),
        r matches Ok(s) ==> {
            let d = region_contents(m@, ptr, MAX_ARGS_SIZE)->Some_0;
            &&& region_contents(m@, ptr, MAX_ARGS_SIZE) is Some
            &&& *final(gas) == crate::types::gas_left_of(
                *old(gas),
                (d.len() + BASE_BYTES_TO_HEX_COST) as u64,
            )
            &&& s@.len() == 2 * d.len()
            &&& forall|i: int|
                0 <= i < d.len() ==> s@[2 * i] == hex_digit(#[trigger] d[i] as int / 16) && s@[2
                    * i + 1] == hex_digit(d[i] as int % 16)
        },
{
    set_left_gas_to_backend(env, *gas)?;
    let data = read_region(m, ptr, MAX_ARGS_SIZE)?;
    let text = hex_encode(data.as_slice());
    process_gas_info(gas, data.len() as u64 + BASE_BYTES_TO_HEX_COST)?;
    Ok(text)
}

pub fn burn<B: Backend>(env: &mut Env<B>, m: &[u8], gas: &mut u64, amount: u32) -> (r: VmResult<()>)
    ensures
        frame_kept(*old(env), *final(env)),
        metered(r, *old(gas), *final(gas)),
        own_refusal(r, *old(gas), *final(gas)) ==> (region_contents(m@, amount, MAX_IDNA_SIZE) is None),
        region_contents(m@, amount, MAX_IDNA_SIZE) is None ==> refused(r, *old(gas), *final(gas)),
{
    let amount = read_region(m, amount, MAX_IDNA_SIZE)?;
    set_left_gas_to_backend(env, *gas)?;
    let (result, cost) = env.backend.burn(amount);
    settle_gas(result, gas, cost)
}

/// The state of the identity at `addr`.
pub fn identity_state<B: Backend>(env: &mut Env<B>, m: &[u8], gas: &mut u64, addr: u32) -> (r: VmResult<
    u8,
>)
    ensures
        frame_kept(*old(env), *final(env)),
        metered(r, *old(gas), *final(gas)),
        own_refusal(r, *old(gas), *final(gas)) ==> (region_contents(m@, addr, MAX_ADDRESS_SIZE) is None),
        region_contents(m@, addr, MAX_ADDRESS_SIZE) is None ==> refused(r, *old(gas), *final(gas)),
{
    let address = read_region(m, addr, MAX_ADDRESS_SIZE)?;
    set_left_gas_to_backend(env, *gas)?;
    let (result, cost) = env.backend.identity_state(address);
    settle_gas(result, gas, cost)
}

/// The identity record at `addr`, if there is one.
pub fn identity<B: Backend>(env: &mut Env<B>, m: &[u8], gas: &mut u64, addr: u32) -> (r: VmResult<
    Option<Vec<u8>>,
>)
    ensures
        frame_kept(*old(env), *final(env)),
        metered(r, *old(gas), *final(gas)),
        own_refusal(r, *old(gas), *final(gas)) ==> (region_contents(m@, addr, MAX_ADDRESS_SIZE) is None),
        region_contents(m@, addr, MAX_ADDRESS_SIZE) is None ==> refused(r, *old(gas), *final(gas)),
{
    let address = read_region(m, addr, MAX_ADDRESS_SIZE)?;
    set_left_gas_to_backend(env, *gas)?;
    let (result, cost) = env.backend.identity(address);
    settle_gas(result, gas, cost)
}

/// The gas limit of the frame.
pub fn gas_limit<B: Backend>(env: &Env<B>) -> (r: u64)
    ensures
        r == env.gas_limit,
{
    env.gas_limit()
}

/// The gas left to the frame.
pub fn gas_left(gas: &u64) -> (r: u64)
    ensures
        r == *gas,
{
    *gas
}

/// The queue changes only when the call succeeds.
pub open spec fn queue_kept_on_failure<B: Backend, T>(r: VmResult<T>, a: Env<B>, b: Env<B>) -> bool {
    r is Err ==> b.pending_promises@ == a.pending_promises@
}

/// The queue grew by one promise without callback, to the receiver `to`;
/// its predecessor is the address that the host gave for this contract.
pub open spec fn grew_by_one<B: Backend>(a: Env<B>, b: Env<B>, to: Option<Seq<u8>>) -> bool {
    &&& b.pending_promises@.len() == a.pending_promises@.len() + 1
    &&& b.pending_promises@.take(a.pending_promises@.len() as int) == a.pending_promises@
    &&& to is Some ==> b.pending_promises@.last().receiver_id@ == to->Some_0
    &&& b.pending_promises@.last().action_callback is None
}

/// The first request made of the host is a deduction of `amount` that it
/// granted.
pub open spec fn deduction_granted(a: Seq<HostCall>, b: Seq<HostCall>, amount: Seq<u8>) -> bool {
    &&& b.len() > a.len()
    &&& b[a.len() as int].kind == 4
    &&& b[a.len() as int].amount == amount
    &&& b[a.len() as int].credited is Ok
}

/// The first request made of the host is a deduction that it refused.
pub open spec fn deduction_refused(a: Seq<HostCall>, b: Seq<HostCall>) -> bool {
    &&& b.len() > a.len()
    &&& b[a.len() as int].kind == 4
    &&& b[a.len() as int].credited is Err
}

/// Takes a deposit out of the contract's balance; nothing to do for an empty
/// amount.
pub fn deduct_balance_if_needed<B: Backend>(env: &mut Env<B>, gas: &mut u64, amount_value: &Vec<u8>) -> (r:
    VmResult<()>)
    ensures
        frame_kept(*old(env), *final(env)),
        *final(gas) <= *old(gas),
        (*final(gas) == 0 && *old(gas) > 0) ==> (r matches Err(VmError::OutOfGas)),
        (r is Ok && amount_value@.len() > 0) ==> *final(gas) > 0,
        amount_value@.len() == 0 ==> r is Ok && *final(gas) == *old(gas) && final(env).backend.requests()
            == old(env).backend.requests(),
        r matches Err(e) ==> e is OutOfGas || (e is Custom && host_error_text(e->Custom_msg@)),
        final(env).backend.requests() == old(env).backend.requests() || (
            final(env).backend.requests().len() == old(env).backend.requests().len() + 1
            && final(env).backend.requests().drop_last() == old(env).backend.requests()),
        deduction_refused(old(env).backend.requests(), final(env).backend.requests()) ==> r is Err,
        (r is Ok && amount_value@.len() > 0) ==> deduction_granted(
            old(env).backend.requests(),
            final(env).backend.requests(),
            amount_value@,
        ),
{
    if amount_value.len() > 0 {
        set_left_gas_to_backend(env, *gas)?;
        let (res, cost) = env.backend.deduct_balance(crate::types::copy_bytes(amount_value));
        assert(env.backend.requests().drop_last() =~= old(env).backend.requests());
        settle_gas(res, gas, cost)
    } else {
        Ok(())
    }
}

/// Queues a transfer of the amount at `amount` to the address at `addr`,
/// after taking the amount out of the contract's balance.
pub fn create_transfer_promise<B: Backend>(
    env: &mut Env<B>,
    m: &[u8],
    gas: &mut u64,
    addr: u32,
    amount: u32,
) -> (r: VmResult<()>)
    ensures
        final(env).promise_result == old(env).promise_result,
        final(env).gas_limit == old(env).gas_limit,
        metered(r, *old(gas), *final(gas)),
        own_refusal(r, *old(gas), *final(gas)) ==> (region_contents(m@, addr, MAX_ADDRESS_SIZE) is None || region_contents(m@, amount, MAX_IDNA_SIZE) is None),
        queue_kept_on_failure(r, *old(env), *final(env)),
        deduction_refused(old(env).backend.requests(), final(env).backend.requests()) ==> r is Err,
        r is Ok ==> deduction_granted(
            old(env).backend.requests(),
            final(env).backend.requests(),
            region_contents(m@, amount, MAX_IDNA_SIZE)->Some_0,
        ),
        region_contents(m@, addr, MAX_ADDRESS_SIZE) is None ==> refused(r, *old(gas), *final(gas)),
        region_contents(m@, amount, MAX_IDNA_SIZE) is None ==> refused(r, *old(gas), *final(gas)),
        r is Ok ==> {
            &&& grew_by_one(*old(env), *final(env), region_contents(m@, addr, MAX_ADDRESS_SIZE))
            &&& final(env).pending_promises@.last().action is Transfer
            &&& Some(final(env).pending_promises@.last().action->Transfer_0.amount@)
                == region_contents(m@, amount, MAX_IDNA_SIZE)
        },
{
    let to = read_region(m, addr, MAX_ADDRESS_SIZE)?;
    let amount = read_region(m, amount, MAX_IDNA_SIZE)?;
    set_left_gas_to_backend(env, *gas)?;
    let (res, cost) = env.backend.deduct_balance(crate::types::copy_bytes(&amount));
    settle_gas(res, gas, cost)?;
    let (own, lookup) = env.backend.own_addr();
    let charge = match &own {
        Ok(_) => lookup.saturating_add(BASE_PROMISE_COST),
        Err(_) => lookup,
    };
    process_gas_info(gas, charge)?;
    let (res, _) = env.push_promise(own, lookup, to, Action::Transfer(TransferAction { amount }));
    match res {
        Ok(_) => Ok(()),
        Err(e) => Err(VmError::from_backend(e)),
    }
}

/// Queues a call of a method on another contract and debits its gas limit
/// from this frame; returns the position of the promise in the queue.
pub fn create_call_function_promise<B: Backend>(
    env: &mut Env<B>,
    m: &[u8],
    gas: &mut u64,
    addr: u32,
    method: u32,
    args: u32,
    amount: u32,
    gas_limit: u32,
) -> (r: VmResult<u32>)
    ensures
        final(env).promise_result == old(env).promise_result,
        final(env).gas_limit == old(env).gas_limit,
        metered(r, *old(gas), *final(gas)),
        own_refusal(r, *old(gas), *final(gas)) ==> (region_contents(m@, addr, MAX_ADDRESS_SIZE) is None || region_contents(m@, method, MAX_STRING_SIZE) is None || (args != 0 && region_contents(m@, args, MAX_ARGS_SIZE) is None) || (amount != 0 && region_contents(m@, amount, MAX_IDNA_SIZE) is None)),
        queue_kept_on_failure(r, *old(env), *final(env)),
        deduction_refused(old(env).backend.requests(), final(env).backend.requests()) ==> r is Err,
        (r is Ok && amount != 0 && region_contents(m@, amount, MAX_IDNA_SIZE) is Some && region_contents(
            m@,
            amount,
            MAX_IDNA_SIZE,
        )->Some_0.len() > 0) ==> deduction_granted(
            old(env).backend.requests(),
            final(env).backend.requests(),
            region_contents(m@, amount, MAX_IDNA_SIZE)->Some_0,
        ),
        region_contents(m@, addr, MAX_ADDRESS_SIZE) is None ==> refused(r, *old(gas), *final(gas)),
        region_contents(m@, method, MAX_STRING_SIZE) is None ==> refused(r, *old(gas), *final(gas)),
        r matches Ok(idx) ==> {
            &&& idx as int == old(env).pending_promises@.len()
            &&& grew_by_one(*old(env), *final(env), region_contents(m@, addr, MAX_ADDRESS_SIZE))
            &&& region_contents(m@, method, MAX_STRING_SIZE) is Some
            &&& callback_action(
                final(env).pending_promises@[idx as int].action,
                region_contents(m@, method, MAX_STRING_SIZE)->Some_0,
                if args == 0 {
                    Seq::empty()
                } else {
                    region_contents(m@, args, MAX_ARGS_SIZE)->Some_0
                },
                if amount == 0 {
                    Seq::empty()
                } else {
                    region_contents(m@, amount, MAX_IDNA_SIZE)->Some_0
                },
                gas_limit as u64,
            )
        },
{
    let to = read_region(m, addr, MAX_ADDRESS_SIZE)?;
    let method = read_region(m, method, MAX_STRING_SIZE)?;
    let args_v = read_optional(m, args, MAX_ARGS_SIZE)?;
    let amount_value = read_optional(m, amount, MAX_IDNA_SIZE)?;
    assert(args_v@ == if args == 0 {
        Seq::<u8>::empty()
    } else {
        region_contents(m@, args, MAX_ARGS_SIZE)->Some_0
    });
    assert(amount_value@ == if amount == 0 {
        Seq::<u8>::empty()
    } else {
        region_contents(m@, amount, MAX_IDNA_SIZE)->Some_0
    });
    deduct_balance_if_needed(env, gas, &amount_value)?;
    let (own, lookup) = env.backend.own_addr();
    let own = match own {
        Ok(a) => a,
        Err(e) => return Err(VmError::from_backend(e)),
    };
    process_gas_info(gas, gas_limit as u64)?;
    process_gas_info(gas, lookup.saturating_add(BASE_PROMISE_COST))?;
    let action = Action::FunctionCall(
        FunctionCallAction {
            gas_limit: gas_limit as u64,
            args: args_v,
            method_name: lossy_string(method.as_slice()),
            deposit: amount_value,
        },
    );
    let (res, _) = env.push_promise(Ok(own), lookup, to, action);
    match res {
        Ok(idx) => Ok(idx),
        Err(e) => Err(VmError::from_backend(e)),
    }
}

/// Queues the deploy of the code at `code`, to the address that the host
/// derives, and debits its gas limit from this frame; returns the position
/// of the promise in the queue.
pub fn create_deploy_contract_promise<B: Backend>(
    env: &mut Env<B>,
    m: &[u8],
    gas: &mut u64,
    code: u32,
    args: u32,
    nonce: u32,
    amount: u32,
    gas_limit: u32,
) -> (r: VmResult<u32>)
    ensures
        final(env).promise_result == old(env).promise_result,
        final(env).gas_limit == old(env).gas_limit,
        metered(r, *old(gas), *final(gas)),
        own_refusal(r, *old(gas), *final(gas)) ==> (region_contents(m@, code, MAX_CODE_SIZE) is None || (args != 0 && region_contents(m@, args, MAX_ARGS_SIZE) is None) || (nonce != 0 && region_contents(m@, nonce, MAX_STRING_SIZE) is None) || (amount != 0 && region_contents(m@, amount, MAX_IDNA_SIZE) is None)),
        queue_kept_on_failure(r, *old(env), *final(env)),
        deduction_refused(old(env).backend.requests(), final(env).backend.requests()) ==> r is Err,
        (r is Ok && amount != 0 && region_contents(m@, amount, MAX_IDNA_SIZE) is Some && region_contents(
            m@,
            amount,
            MAX_IDNA_SIZE,
        )->Some_0.len() > 0) ==> deduction_granted(
            old(env).backend.requests(),
            final(env).backend.requests(),
            region_contents(m@, amount, MAX_IDNA_SIZE)->Some_0,
        ),
        region_contents(m@, code, MAX_CODE_SIZE) is None ==> refused(r, *old(gas), *final(gas)),
        r matches Ok(idx) ==> {
            &&& idx as int == old(env).pending_promises@.len()
            &&& grew_by_one(*old(env), *final(env), None)
            &&& final(env).pending_promises@[idx as int].action is DeployContract
            &&& Some(final(env).pending_promises@[idx as int].action->DeployContract_0.code@)
                == region_contents(m@, code, MAX_CODE_SIZE)
            &&& final(env).pending_promises@[idx as int].action->DeployContract_0.gas_limit
                == gas_limit as u64
        },
{
    let code = read_region(m, code, MAX_CODE_SIZE)?;
    let args = read_optional(m, args, MAX_ARGS_SIZE)?;
    let nonce = read_optional(m, nonce, MAX_STRING_SIZE)?;
    let amount_value = read_optional(m, amount, MAX_IDNA_SIZE)?;
    deduct_balance_if_needed(env, gas, &amount_value)?;
    let (own, lookup) = env.backend.own_addr();
    let own = match own {
        Ok(a) => a,
        Err(e) => return Err(VmError::from_backend(e)),
    };
    let (to, derive) = env.backend.contract_addr(code.as_slice(), args.as_slice(), nonce.as_slice());
    let to = match to {
        Ok(a) => a,
        Err(e) => return Err(VmError::from_backend(e)),
    };
    let host = lookup.saturating_add(derive);
    process_gas_info(gas, gas_limit as u64)?;
    process_gas_info(gas, host.saturating_add(BASE_PROMISE_COST))?;
    let action = Action::DeployContract(
        DeployContractAction { code, nonce, gas_limit: gas_limit as u64, args, deposit: amount_value },
    );
    let (res, _) = env.push_promise(Ok(own), host, to, action);
    match res {
        Ok(idx) => Ok(idx),
        Err(e) => Err(VmError::from_backend(e)),
    }
}

/// Queues a sharded read for `to` and debits its gas limit.
fn queue_read<B: Backend>(
    env: &mut Env<B>,
    gas: &mut u64,
    to: Vec<u8>,
    action: ReadShardedDataAction,
    gas_limit: u32,
) -> (r: VmResult<u32>)
    ensures
        final(env).promise_result == old(env).promise_result,
        final(env).gas_limit == old(env).gas_limit,
        metered(r, *old(gas), *final(gas)),
        !own_refusal(r, *old(gas), *final(gas)),
        queue_kept_on_failure(r, *old(env), *final(env)),
        r matches Err(e) ==> e is OutOfGas || (e is Custom && host_error_text(e->Custom_msg@)),
        r matches Ok(idx) ==> {
            &&& idx as int == old(env).pending_promises@.len()
            &&& grew_by_one(*old(env), *final(env), Some(to@))
            &&& final(env).pending_promises@.last().action == Action::ReadShardedData(action)
        },
{
    let (own, lookup) = env.backend.own_addr();
    let own = match own {
        Ok(a) => a,
        Err(e) => return Err(VmError::from_backend(e)),
    };
    process_gas_info(gas, gas_limit as u64)?;
    process_gas_info(gas, lookup.saturating_add(BASE_PROMISE_COST))?;
    let (res, _) = env.push_promise(Ok(own), lookup, to, Action::ReadShardedData(action));
    match res {
        Ok(idx) => Ok(idx),
        Err(e) => Err(VmError::from_backend(e)),
    }
}

/// Queues a read of a key of another contract's storage.
pub fn create_read_contract_data_promise<B: Backend>(
    env: &mut Env<B>,
    m: &[u8],
    gas: &mut u64,
    addr: u32,
    key: u32,
    gas_limit: u32,
) -> (r: VmResult<u32>)
    ensures
        final(env).promise_result == old(env).promise_result,
        final(env).gas_limit == old(env).gas_limit,
        metered(r, *old(gas), *final(gas)),
        own_refusal(r, *old(gas), *final(gas)) ==> (region_contents(m@, addr, MAX_ADDRESS_SIZE) is None || region_contents(m@, key, MAX_STORAGE_KEY_SIZE) is None),
        queue_kept_on_failure(r, *old(env), *final(env)),
        region_contents(m@, addr, MAX_ADDRESS_SIZE) is None ==> refused(r, *old(gas), *final(gas)),
        region_contents(m@, key, MAX_STORAGE_KEY_SIZE) is None ==> refused(r, *old(gas), *final(gas)),
        r matches Ok(idx) ==> {
            &&& idx as int == old(env).pending_promises@.len()
            &&& grew_by_one(*old(env), *final(env), region_contents(m@, addr, MAX_ADDRESS_SIZE))
            &&& final(env).pending_promises@.last().action matches Action::ReadShardedData(
                ReadShardedDataAction::ReadContractData(rd),
            ) && Some(rd.key@) == region_contents(m@, key, MAX_STORAGE_KEY_SIZE) && rd.gas_limit
                == gas_limit as u64
        },
{
    let to = read_region(m, addr, MAX_ADDRESS_SIZE)?;
    let key = read_region(m, key, MAX_STORAGE_KEY_SIZE)?;
    let action = ReadShardedDataAction::ReadContractData(
        ReadContractDataAction { key, gas_limit: gas_limit as u64 },
    );
    queue_read(env, gas, to, action, gas_limit)
}

/// Queues a read of the identity record at an address.
pub fn create_get_identity_promise<B: Backend>(
    env: &mut Env<B>,
    m: &[u8],
    gas: &mut u64,
    addr: u32,
    gas_limit: u32,
) -> (r: VmResult<u32>)
    ensures
        final(env).promise_result == old(env).promise_result,
        final(env).gas_limit == old(env).gas_limit,
        metered(r, *old(gas), *final(gas)),
        own_refusal(r, *old(gas), *final(gas)) ==> (region_contents(m@, addr, MAX_ADDRESS_SIZE) is None),
        queue_kept_on_failure(r, *old(env), *final(env)),
        region_contents(m@, addr, MAX_ADDRESS_SIZE) is None ==> refused(r, *old(gas), *final(gas)),
        r matches Ok(idx) ==> {
            &&& idx as int == old(env).pending_promises@.len()
            &&& grew_by_one(*old(env), *final(env), region_contents(m@, addr, MAX_ADDRESS_SIZE))
            &&& final(env).pending_promises@.last().action matches Action::ReadShardedData(
                ReadShardedDataAction::GetIdentity(rd),
            ) && Some(rd.addr@) == region_contents(m@, addr, MAX_ADDRESS_SIZE) && rd.gas_limit
                == gas_limit as u64
        },
{
    let to = read_region(m, addr, MAX_ADDRESS_SIZE)?;
    let action = ReadShardedDataAction::GetIdentity(
        GetIdentityAction { addr: crate::types::copy_bytes(&to), gas_limit: gas_limit as u64 },
    );
    queue_read(env, gas, to, action, gas_limit)
}

/// Attaches a callback, a method of this contract, to the promise at
/// `promise_idx`, and debits the callback's gas limit from this frame.
pub fn promise_then<B: Backend>(
    env: &mut Env<B>,
    m: &[u8],
    gas: &mut u64,
    promise_idx: u32,
    method: u32,
    args: u32,
    amount: u32,
    gas_limit: u32,
) -> (r: VmResult<()>)
    ensures
        final(env).promise_result == old(env).promise_result,
        final(env).gas_limit == old(env).gas_limit,
        metered(r, *old(gas), *final(gas)),
        own_refusal(r, *old(gas), *final(gas)) ==> (region_contents(m@, method, MAX_STRING_SIZE) is None || (args != 0 && region_contents(m@, args, MAX_ARGS_SIZE) is None) || (amount != 0 && region_contents(m@, amount, MAX_IDNA_SIZE) is None)),
        queue_kept_on_failure(r, *old(env), *final(env)),
        deduction_refused(old(env).backend.requests(), final(env).backend.requests()) ==> r is Err,
        (r is Ok && amount != 0 && region_contents(m@, amount, MAX_IDNA_SIZE) is Some && region_contents(
            m@,
            amount,
            MAX_IDNA_SIZE,
        )->Some_0.len() > 0) ==> deduction_granted(
            old(env).backend.requests(),
            final(env).backend.requests(),
            region_contents(m@, amount, MAX_IDNA_SIZE)->Some_0,
        ),
        region_contents(m@, method, MAX_STRING_SIZE) is None ==> refused(r, *old(gas), *final(gas)),
        r is Ok ==> {
            &&& promise_idx < old(env).pending_promises@.len()
            &&& old(env).pending_promises@[promise_idx as int].action_callback is None
            &&& final(env).pending_promises@.len() == old(env).pending_promises@.len()
            &&& final(env).pending_promises@[promise_idx as int].action_callback is Some
        },
{
    let method = read_region(m, method, MAX_STRING_SIZE)?;
    let args = read_optional(m, args, MAX_ARGS_SIZE)?;
    let amount = read_optional(m, amount, MAX_IDNA_SIZE)?;
    deduct_balance_if_needed(env, gas, &amount)?;
    process_gas_info(gas, BASE_PROMISE_COST)?;
    if !env.can_attach(promise_idx as usize) {
        let (res, _) = env.promise_then(promise_idx as usize, method, args, amount, gas_limit as u64);
        return match res {
            Ok(()) => Ok(()),
            Err(e) => Err(VmError::from_backend(e)),
        };
    }
    process_gas_info(gas, gas_limit as u64)?;
    let (res, _) = env.promise_then(promise_idx as usize, method, args, amount, gas_limit as u64);
    match res {
        Ok(()) => Ok(()),
        Err(e) => Err(VmError::from_backend(e)),
    }
}

/// The status byte that a callback reads for the promise's outcome:
/// 0 failed, 1 empty or none, 2 a value.
pub open spec fn status_code(p: Option<PromiseResult>) -> u8 {
    match p {
        Some(PromiseResult::Failed) => 0,
        Some(PromiseResult::Value(_)) => 2,
        _ => 1,
    }
}

/// Writes the status of the triggering promise into the region at `status`
/// and returns the value, if any, to hand to the guest.
pub fn promise_result<B: Backend>(env: &Env<B>, m: &mut [u8], status: u32) -> (r: VmResult<
    Option<Vec<u8>>,
>)
    ensures
        match r {
            Ok(v) => {
                &&& region_written(old(m)@, status, seq![status_code(env.promise_result)])
                    == Some(final(m)@)
                &&& match env.promise_result {
                    Some(PromiseResult::Value(d)) => v is Some && v->Some_0@ == d@,
                    _ => v is None,
                }
            },
            Err(e) => {
                &&& region_written(old(m)@, status, seq![status_code(env.promise_result)]) is None
                &&& e is Custom
                &&& final(m)@ == old(m)@
            },
        },
{
    match &env.promise_result {
        Some(PromiseResult::Empty) => {
            let code: [u8; 1] = [1u8];
            write_region(m, status, code.as_slice())?;
            assert(code@ =~= seq![1u8]);
            Ok(None)
        },
        Some(PromiseResult::Failed) => {
            let code: [u8; 1] = [0u8];
            write_region(m, status, code.as_slice())?;
            assert(code@ =~= seq![0u8]);
            Ok(None)
        },
        Some(PromiseResult::Value(data)) => {
            let code: [u8; 1] = [2u8];
            write_region(m, status, code.as_slice())?;
            assert(code@ =~= seq![2u8]);
            Ok(Some(crate::types::copy_bytes(data)))
        },
        None => {
            let code: [u8; 1] = [1u8];
            write_region(m, status, code.as_slice())?;
            assert(code@ =~= seq![1u8]);
            Ok(None)
        },
    }
}

/// The trap raised by the guest's `panic`: its message, read as UTF-8 with
/// invalid sequences replaced.
pub fn panic(m: &[u8], msg: u32) -> (r: VmError)
    ensures
        match region_contents(m@, msg, MAX_STRING_SIZE) {
            Some(d) => r is WasmExecutionErr && r->WasmExecutionErr_msg@ == utf8_lossy(d),
            None => r is Custom,
        },
{
    match read_region(m, msg, MAX_STRING_SIZE) {
        Ok(data) => VmError::wasm_err(lossy_string(data.as_slice())),
        Err(e) => e,
    }
}

/// The text of a debug message from the guest.
pub fn debug(m: &[u8], ptr: u32) -> (r: VmResult<String>)
    ensures
        match r {
            Ok(s) => region_contents(m@, ptr, MAX_STRING_SIZE) is Some && s@ == utf8_lossy(
                region_contents(m@, ptr, MAX_STRING_SIZE)->Some_0,
            ),
            Err(e) => region_contents(m@, ptr, MAX_STRING_SIZE) is None && e is Custom,
        },
{
    let data = read_region(m, ptr, MAX_STRING_SIZE)?;
    Ok(lossy_string(data.as_slice()))
}

/// The decimal digit of a value below 10.
pub open spec fn digit_char(d: nat) -> char {
    if d == 0 { '0' } else if d == 1 { '1' } else if d == 2 { '2' } else if d == 3 { '3' }
    else if d == 4 { '4' } else if d == 5 { '5' } else if d == 6 { '6' } else if d == 7 { '7' }
    else if d == 8 { '8' } else { '9' }
}

/// The decimal text of a number, without leading zeros.
pub open spec fn decimal(n: nat) -> Seq<char>
    decreases n,
{
    if n < 10 {
        seq![digit_char(n)]
    } else {
        decimal(n / 10) + seq![digit_char(n % 10)]
    }
}

fn digit_text(d: u32) -> (r: &'static str)
    requires
        d < 10,
    ensures
        r@ == seq![digit_char(d as nat)],
{
    if d == 0 {
        proof { reveal_strlit("0"); }
        "0"
    } else if d == 1 {
        proof { reveal_strlit("1"); }
        "1"
    } else if d == 2 {
        proof { reveal_strlit("2"); }
        "2"
    } else if d == 3 {
        proof { reveal_strlit("3"); }
        "3"
    } else if d == 4 {
        proof { reveal_strlit("4"); }
        "4"
    } else if d == 5 {
        proof { reveal_strlit("5"); }
        "5"
    } else if d == 6 {
        proof { reveal_strlit("6"); }
        "6"
    } else if d == 7 {
        proof { reveal_strlit("7"); }
        "7"
    } else if d == 8 {
        proof { reveal_strlit("8"); }
        "8"
    } else {
        proof { reveal_strlit("9"); }
        "9"
    }
}

/// The decimal text of `n`.
pub fn decimal_text(n: u32) -> (r: String)
    ensures
        r@ == decimal(n as nat),
    decreases n,
{
    if n < 10 {
        String::from_str(digit_text(n))
    } else {
        let mut s = decimal_text(n / 10);
        s.append(digit_text(n % 10));
        s
    }
}

/// The message of an abort: the guest's message and file name, then the
/// line and the column.
pub open spec fn abort_text(msg: Seq<char>, file: Seq<char>, line: u32, col: u32) -> Seq<char> {
    msg + ", filename: \""@ + file + "\" line: "@ + decimal(line as nat) + " col: "@ + decimal(
        col as nat,
    )
}

/// The UTF-16 text at `ptr`, whose byte length is the word just before it.
pub open spec fn prefixed_utf16(m: Seq<u8>, ptr: u32) -> Option<Seq<char>> {
    if ptr < 4 || ptr as int > m.len() {
        None
    } else {
        utf16_at(m, ptr, le32(m, ptr - 4) as u32)
    }
}

/// The trap raised by the guest's `abort`. Message and file name are UTF-16
/// text, each preceded by its byte length.
pub fn abort(m: &[u8], msg: u32, file_ptr: u32, line: u32, col: u32) -> (r: VmError)
    ensures
        (msg < 4 || file_ptr < 4) ==> r is Custom,
        (prefixed_utf16(m@, msg) is Some && prefixed_utf16(m@, file_ptr) is Some) ==> {
            &&& r is WasmExecutionErr
            &&& r->WasmExecutionErr_msg@ == abort_text(
                prefixed_utf16(m@, msg)->Some_0,
                prefixed_utf16(m@, file_ptr)->Some_0,
                line,
                col,
            )
        },
        (prefixed_utf16(m@, msg) is None || prefixed_utf16(m@, file_ptr) is None) ==> r is Custom,
{
    if msg >= 4 && file_ptr >= 4 {
        let msg_len = match read_u32(m, msg - 4) {
            Ok(v) => v,
            Err(e) => return e,
        };
        let file_len = match read_u32(m, file_ptr - 4) {
            Ok(v) => v,
            Err(e) => return e,
        };
        let text = match read_utf16_string(m, msg, msg_len) {
            Ok(v) => v,
            Err(e) => return e,
        };
        let file = match read_utf16_string(m, file_ptr, file_len) {
            Ok(v) => v,
            Err(e) => return e,
        };
        let mut message = text;
        message.append(", filename: \"");
        message.append(file.as_str());
        message.append("\" line: ");
        let l = decimal_text(line);
        message.append(l.as_str());
        message.append(" col: ");
        let c = decimal_text(col);
        message.append(c.as_str());
        return VmError::wasm_err(message);
    }
    VmError::custom("bad utf16 format")
}

} // verus!
