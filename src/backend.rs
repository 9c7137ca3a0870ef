use vstd::prelude::*;
use vstd::string::*;
use vstd::utf8::*;

use crate::types::{ActionResult, Address, IDNA};

verus! {

/// A failure reported by the host.
#[derive(Debug)]
pub enum BackendError {
    Custom { msg: String },
    OutOfGas,
}

/// The display text of a host failure.
pub open spec fn backend_error_text(e: BackendError) -> Seq<char> {
    match e {
        BackendError::Custom { msg } => msg@,
        BackendError::OutOfGas => "out_of_gas"@,
    }
}

impl BackendError {
    pub fn new(msg: &str) -> (r: BackendError)
        ensures
            r is Custom,
            r->Custom_msg@ == msg@,
    {
        BackendError::Custom { msg: msg.to_owned() }
    }

    pub fn out_of_gas() -> (r: BackendError)
        ensures
            r is OutOfGas,
    {
        BackendError::OutOfGas
    }

    /// The display text of the failure.
    pub fn to_string(&self) -> (r: String)
        ensures
            r@ == backend_error_text(*self),
    {
        match self {
            BackendError::Custom { msg } => msg.clone(),
            BackendError::OutOfGas => String::from_str("out_of_gas"),
        }
    }
}

/// One request to the host that changes what others see: a call of another
/// contract (kind 0), a deploy (kind 1), a credit (kind 2), a commit (kind 3)
/// or a deduction from this contract's balance (kind 4); what was handed
/// over, and what came back.
pub ghost struct HostCall {
    pub kind: u8,
    pub addr: Seq<u8>,
    pub method: Seq<u8>,
    pub args: Seq<u8>,
    pub amount: Seq<u8>,
    pub gas_limit: u64,
    pub ctx: Seq<u8>,
    pub code: Seq<u8>,
    pub nonce: Seq<u8>,
    /// The reply of a call or deploy.
    pub reply: Result<ActionResult, BackendError>,
    /// The outcome of a credit, a commit or a deduction.
    pub credited: Result<(), BackendError>,
    pub gas: u64,
}

/// A request that is neither a call nor a deploy.
pub open spec fn simple_request(kind: u8, addr: Seq<u8>, amount: Seq<u8>, out: Result<(), BackendError>, gas: u64) -> HostCall {
    HostCall {
        kind,
        addr,
        method: Seq::empty(),
        args: Seq::empty(),
        amount,
        gas_limit: 0,
        ctx: Seq::empty(),
        code: Seq::empty(),
        nonce: Seq::empty(),
        reply: Err(BackendError::OutOfGas),
        credited: out,
        gas,
    }
}

/// What a host primitive returns: its outcome and the gas it charged.
pub type BackendResult<T> = (Result<T, BackendError>, u64);

/// The capabilities that the host offers to the engine. Every primitive
/// reports the gas that it charged beside its outcome. `requests` is the
/// history of the requests that change what others see: calls and deploys
/// of other contracts, credits, deductions and commits. Each of those
/// primitives appends its request and reply; the others leave it as it was.
pub trait Backend {
    /// The history; an implementation outside the verified library, which
    /// cannot state it, leaves it unknown.
    closed spec fn requests(&self) -> Seq<HostCall> {
        Seq::empty()
    }

    fn set_remaining_gas(&mut self, gas_limit: u64) -> (r: BackendResult<()>)
        ensures
            final(self).requests() == old(self).requests(),
    ;

    fn set_storage(&mut self, key: Vec<u8>, value: Vec<u8>) -> (r: BackendResult<()>)
        ensures
            final(self).requests() == old(self).requests(),
    ;

    fn get_storage(&mut self, key: Vec<u8>) -> (r: BackendResult<Option<Vec<u8>>>)
        ensures
            final(self).requests() == old(self).requests(),
    ;

    fn remove_storage(&mut self, key: Vec<u8>) -> (r: BackendResult<()>)
        ensures
            final(self).requests() == old(self).requests(),
    ;

    fn block_timestamp(&mut self) -> (r: BackendResult<i64>)
        ensures
            final(self).requests() == old(self).requests(),
    ;

    fn block_number(&mut self) -> (r: BackendResult<u64>)
        ensures
            final(self).requests() == old(self).requests(),
    ;

    fn min_fee_per_gas(&mut self) -> (r: BackendResult<IDNA>)
        ensures
            final(self).requests() == old(self).requests(),
    ;

    fn balance(&mut self) -> (r: BackendResult<IDNA>)
        ensures
            final(self).requests() == old(self).requests(),
    ;

    fn block_seed(&mut self) -> (r: BackendResult<Vec<u8>>)
        ensures
            final(self).requests() == old(self).requests(),
    ;

    fn network_size(&mut self) -> (r: BackendResult<u64>)
        ensures
            final(self).requests() == old(self).requests(),
    ;

    fn identity_state(&mut self, addr: Address) -> (r: BackendResult<u8>)
        ensures
            final(self).requests() == old(self).requests(),
    ;

    fn pub_key(&mut self, addr: Address) -> (r: BackendResult<Vec<u8>>)
        ensures
            final(self).requests() == old(self).requests(),
    ;

    fn burn_all(&mut self) -> (r: BackendResult<()>)
        ensures
            final(self).requests() == old(self).requests(),
    ;

    fn burn(&mut self, amount: IDNA) -> (r: BackendResult<()>)
        ensures
            final(self).requests() == old(self).requests(),
    ;

    fn read_contract_data(&mut self, addr: Address, key: Vec<u8>) -> (r: BackendResult<Option<Vec<u8>>>)
        ensures
            final(self).requests() == old(self).requests(),
    ;

    fn epoch(&mut self) -> (r: BackendResult<u16>)
        ensures
            final(self).requests() == old(self).requests(),
    ;

    fn delegatee(&mut self, addr: Address) -> (r: BackendResult<Option<Address>>)
        ensures
            final(self).requests() == old(self).requests(),
    ;

    fn identity(&mut self, addr: Address) -> (r: BackendResult<Option<Vec<u8>>>)
        ensures
            final(self).requests() == old(self).requests(),
    ;

    fn call(
        &mut self,
        addr: Address,
        method: &[u8],
        args: &[u8],
        amount: &[u8],
        gas_limit: u64,
        invocation_ctx: &[u8],
    ) -> (r: BackendResult<ActionResult>)
        ensures
            final(self).requests() == old(self).requests().push(
                HostCall {
                    kind: 0,
                    addr: addr@,
                    method: method@,
                    args: args@,
                    amount: amount@,
                    gas_limit,
                    ctx: invocation_ctx@,
                    code: Seq::empty(),
                    nonce: Seq::empty(),
                    reply: r.0,
                    credited: Ok(()),
                    gas: r.1,
                },
            ),
    ;

    fn caller(&mut self) -> (r: BackendResult<Vec<u8>>)
        ensures
            final(self).requests() == old(self).requests(),
    ;

    fn original_caller(&mut self) -> (r: BackendResult<Vec<u8>>)
        ensures
            final(self).requests() == old(self).requests(),
    ;

    fn commit(&mut self) -> (r: BackendResult<()>)
        ensures
            final(self).requests() == old(self).requests().push(
                simple_request(3, Seq::empty(), Seq::empty(), r.0, r.1),
            ),
    ;

    fn deduct_balance(&mut self, amount: IDNA) -> (r: BackendResult<()>)
        ensures
            final(self).requests() == old(self).requests().push(
                simple_request(4, Seq::empty(), amount@, r.0, r.1),
            ),
    ;

    fn add_balance(&mut self, to: Address, amount: IDNA) -> (r: BackendResult<()>)
        ensures
            final(self).requests() == old(self).requests().push(simple_request(2, to@, amount@, r.0, r.1)),
    ;

    fn own_addr(&mut self) -> (r: BackendResult<Address>)
        ensures
            final(self).requests() == old(self).requests(),
    ;

    fn contract_code(&mut self, contract: Address) -> (r: BackendResult<Vec<u8>>)
        ensures
            final(self).requests() == old(self).requests(),
    ;

    fn contract_addr(&mut self, code: &[u8], args: &[u8], nonce: &[u8]) -> (r: BackendResult<Address>)
        ensures
            final(self).requests() == old(self).requests(),
    ;

    fn deploy(
        &mut self,
        code: &[u8],
        args: &[u8],
        nonce: &[u8],
        amount: &[u8],
        gas_limit: u64,
    ) -> (r: BackendResult<ActionResult>)
        ensures
            final(self).requests() == old(self).requests().push(
                HostCall {
                    kind: 1,
                    addr: Seq::empty(),
                    method: Seq::empty(),
                    args: args@,
                    amount: amount@,
                    gas_limit,
                    ctx: Seq::empty(),
                    code: code@,
                    nonce: nonce@,
                    reply: r.0,
                    credited: Ok(()),
                    gas: r.1,
                },
            ),
    ;

    fn contract_addr_by_hash(&mut self, hash: &[u8], args: &[u8], nonce: &[u8]) -> (r: BackendResult<
        Address,
    >)
        ensures
            final(self).requests() == old(self).requests(),
    ;

    fn own_code(&mut self) -> (r: BackendResult<Vec<u8>>)
        ensures
            final(self).requests() == old(self).requests(),
    ;

    fn code_hash(&mut self) -> (r: BackendResult<Vec<u8>>)
        ensures
            final(self).requests() == old(self).requests(),
    ;

    fn event(&mut self, event_name: &[u8], args: &[u8]) -> (r: BackendResult<()>)
        ensures
            final(self).requests() == old(self).requests(),
    ;

    fn pay_amount(&mut self) -> (r: BackendResult<IDNA>)
        ensures
            final(self).requests() == old(self).requests(),
    ;

    fn block_header(&mut self, height: u64) -> (r: BackendResult<Option<Vec<u8>>>)
        ensures
            final(self).requests() == old(self).requests(),
    ;

    fn keccak256(&mut self, data: &[u8]) -> (r: BackendResult<Vec<u8>>)
        ensures
            final(self).requests() == old(self).requests(),
    ;

    fn global_state(&mut self) -> (r: BackendResult<Vec<u8>>)
        ensures
            final(self).requests() == old(self).requests(),
    ;
}

} // verus!
