use vstd::prelude::*;

use crate::adapters::{lossy_string, utf8_lossy};
use crate::backend::{Backend, BackendError, BackendResult};
use crate::costs::BASE_PROMISE_COST;
use crate::types::{Action, Address, DeployContractAction, FunctionCallAction, IDNA, Promise, PromiseResult, ReadShardedDataAction, TransferAction};

verus! {

/// The state of one frame: the host handle, the promise queue, the result
/// handed to a callback frame, and the frame's gas limit.
pub struct Env<B: Backend> {
    pub backend: B,
    pub pending_promises: Vec<Promise>,
    pub promise_result: Option<PromiseResult>,
    pub gas_limit: u64,
}

/// The gas of an enqueue: the host's charge plus the base promise cost,
/// saturating.
pub open spec fn enqueue_cost(host: u64) -> u64 {
    if host as int + BASE_PROMISE_COST as int > u64::MAX as int {
        u64::MAX
    } else {
        (host + BASE_PROMISE_COST) as u64
    }
}

/// The callback attached by `promise_then`.
pub open spec fn callback_action(
    c: Action,
    method: Seq<u8>,
    args: Seq<u8>,
    amount: Seq<u8>,
    gas_limit: u64,
) -> bool {
    &&& c is FunctionCall
    &&& c->FunctionCall_0.method_name@ == utf8_lossy(method)
    &&& c->FunctionCall_0.args@ == args
    &&& c->FunctionCall_0.deposit@ == amount
    &&& c->FunctionCall_0.gas_limit == gas_limit
}

impl<B: Backend> Env<B> {
    pub fn new(api: B, promise_res: Option<PromiseResult>, gas_limit: u64) -> (r: Env<B>)
        ensures
            r.backend == api,
            r.pending_promises@.len() == 0,
            r.promise_result == promise_res,
            r.gas_limit == gas_limit,
    {
        Env { backend: api, pending_promises: Vec::new(), promise_result: promise_res, gas_limit }
    }

    pub fn gas_limit(&self) -> (r: u64)
        ensures
            r == self.gas_limit,
    {
        self.gas_limit
    }

    /// Appends a promise whose predecessor is `own`, the address that the
    /// host gave for this contract, and returns its position; `gas` is what the
    /// lookup cost, to which the base promise cost is added. A failed lookup, or
    /// a queue that already holds `u32::MAX` promises, leaves the queue as it
    /// was.
    pub fn push_promise(
        &mut self,
        own: Result<Address, BackendError>,
        gas: u64,
        to: Address,
        action: Action,
    ) -> (r: BackendResult<u32>)
        ensures
            final(self).promise_result == old(self).promise_result,
            final(self).gas_limit == old(self).gas_limit,
            final(self).backend == old(self).backend,
            match own {
                Ok(a) => if old(self).pending_promises@.len() < u32::MAX {
                    &&& r.0 == Ok::<u32, BackendError>(old(self).pending_promises@.len() as u32)
                    &&& final(self).pending_promises@ == old(self).pending_promises@.push(
                        Promise { predecessor_id: a, receiver_id: to, action, action_callback: None },
                    )
                    &&& final(self).pending_promises@.take(old(self).pending_promises@.len() as int)
                        == old(self).pending_promises@
                    &&& final(self).pending_promises@.last() == (Promise {
                        predecessor_id: a,
                        receiver_id: to,
                        action,
                        action_callback: None,
                    })
                    &&& r.1 == enqueue_cost(gas)
                } else {
                    &&& r.0 matches Err(e) && e is Custom && e->Custom_msg@ == "too many promises"@
                    &&& final(self).pending_promises@ == old(self).pending_promises@
                    &&& r.1 == gas
                },
                Err(e) => {
                    &&& r.0 == Err::<u32, BackendError>(e)
                    &&& final(self).pending_promises@ == old(self).pending_promises@
                    &&& r.1 == gas
                },
            },
    {
        let own_addr = match own {
            Ok(a) => a,
            Err(e) => return (Err(e), gas),
        };
        if self.pending_promises.len() >= u32::MAX as usize {
            return (Err(BackendError::new("too many promises")), gas);
        }
        let idx = self.pending_promises.len() as u32;
        self.pending_promises.push(
            Promise { predecessor_id: own_addr, receiver_id: to, action, action_callback: None },
        );
        assert(self.pending_promises@.take(idx as int) =~= old(self).pending_promises@);
        (Ok(idx), gas.saturating_add(BASE_PROMISE_COST))
    }

    /// Appends a promise from this contract, whose address the host gives.
    /// On the host's failure the queue is left as it was.
    fn enqueue(&mut self, to: Address, action: Action) -> (r: BackendResult<u32>)
        ensures
            final(self).promise_result == old(self).promise_result,
            final(self).gas_limit == old(self).gas_limit,
            match r.0 {
                Ok(idx) => {
                    &&& final(self).pending_promises@.len() == old(self).pending_promises@.len() + 1
                    &&& final(self).pending_promises@.take(idx as int)
                        == old(self).pending_promises@
                    &&& idx as int == old(self).pending_promises@.len()
                    &&& final(self).pending_promises@[idx as int].receiver_id == to
                    &&& final(self).pending_promises@[idx as int].action == action
                    &&& final(self).pending_promises@[idx as int].action_callback is None
                    &&& r.1 >= BASE_PROMISE_COST
                },
                Err(_) => final(self).pending_promises@ == old(self).pending_promises@,
            },
    {
        let (own, gas_used) = self.backend.own_addr();
        let r = self.push_promise(own, gas_used, to, action);
        proof {
            if r.0 is Ok {
                assert(self.pending_promises@.take(old(self).pending_promises@.len() as int)
                    =~= old(self).pending_promises@);
            }
        }
        r
    }

    /// Queues a transfer of `amount` to `to`.
    pub fn create_transfer_promise(&mut self, to: Address, amount: IDNA) -> (r: BackendResult<()>)
        ensures
            final(self).promise_result == old(self).promise_result,
            final(self).gas_limit == old(self).gas_limit,
            match r.0 {
                Ok(()) => {
                    &&& final(self).pending_promises@.len() == old(self).pending_promises@.len() + 1
                    &&& final(self).pending_promises@.take(old(self).pending_promises@.len() as int)
                        == old(self).pending_promises@
                    &&& final(self).pending_promises@.last().receiver_id == to
                    &&& final(self).pending_promises@.last().action == Action::Transfer(
                        TransferAction { amount },
                    )
                    &&& final(self).pending_promises@.last().action_callback is None
                    &&& r.1 >= BASE_PROMISE_COST
                },
                Err(_) => final(self).pending_promises@ == old(self).pending_promises@,
            },
    {
        let (res, gas) = self.enqueue(to, Action::Transfer(TransferAction { amount }));
        match res {
            Ok(_) => (Ok(()), gas),
            Err(e) => (Err(e), gas),
        }
    }

    /// Queues a call of `method` on `to`; returns its position in the queue.
    pub fn create_function_call_promise(
        &mut self,
        to: Address,
        method: Vec<u8>,
        args: Vec<u8>,
        amount: IDNA,
        gas_limit: u64,
    ) -> (r: BackendResult<u32>)
        ensures
            final(self).promise_result == old(self).promise_result,
            final(self).gas_limit == old(self).gas_limit,
            match r.0 {
                Ok(idx) => {
                    &&& idx as int == old(self).pending_promises@.len()
                    &&& final(self).pending_promises@.len() == idx + 1
                    &&& final(self).pending_promises@.take(idx as int)
                        == old(self).pending_promises@
                    &&& final(self).pending_promises@[idx as int].receiver_id == to
                    &&& callback_action(
                        final(self).pending_promises@[idx as int].action,
                        method@,
                        args@,
                        amount@,
                        gas_limit,
                    )
                    &&& final(self).pending_promises@[idx as int].action_callback is None
                    &&& r.1 >= BASE_PROMISE_COST
                },
                Err(_) => final(self).pending_promises@ == old(self).pending_promises@,
            },
    {
        let action = Action::FunctionCall(
            FunctionCallAction {
                gas_limit,
                args,
                method_name: lossy_string(method.as_slice()),
                deposit: amount,
            },
        );
        self.enqueue(to, action)
    }

    /// Queues the deploy of `code`, to the address that the host derives from
    /// code, arguments and nonce; returns its position in the queue.
    pub fn create_deploy_contract_promise(
        &mut self,
        code: Vec<u8>,
        args: Vec<u8>,
        nonce: Vec<u8>,
        amount: IDNA,
        gas_limit: u64,
    ) -> (r: BackendResult<u32>)
        ensures
            final(self).promise_result == old(self).promise_result,
            final(self).gas_limit == old(self).gas_limit,
            match r.0 {
                Ok(idx) => {
                    &&& idx as int == old(self).pending_promises@.len()
                    &&& final(self).pending_promises@.len() == idx + 1
                    &&& final(self).pending_promises@.take(idx as int)
                        == old(self).pending_promises@
                    &&& final(self).pending_promises@[idx as int].action == Action::DeployContract(
                        DeployContractAction { code, nonce, gas_limit, args, deposit: amount },
                    )
                    &&& final(self).pending_promises@[idx as int].action_callback is None
                    &&& r.1 >= BASE_PROMISE_COST
                },
                Err(_) => final(self).pending_promises@ == old(self).pending_promises@,
            },
    {
        let (to_res, gas) = self.backend.contract_addr(code.as_slice(), args.as_slice(), nonce.as_slice());
        let to = match to_res {
            Ok(a) => a,
            Err(e) => return (Err(e), gas),
        };
        let action = Action::DeployContract(
            DeployContractAction { code, nonce, gas_limit, args, deposit: amount },
        );
        let (res, gas2) = self.enqueue(to, action);
        (res, gas.saturating_add(gas2))
    }

    /// Queues a read of data that lives on another shard; returns its
    /// position in the queue.
    pub fn create_read_sharded_data_promise(
        &mut self,
        to: Address,
        action: ReadShardedDataAction,
    ) -> (r: BackendResult<u32>)
        ensures
            final(self).promise_result == old(self).promise_result,
            final(self).gas_limit == old(self).gas_limit,
            match r.0 {
                Ok(idx) => {
                    &&& idx as int == old(self).pending_promises@.len()
                    &&& final(self).pending_promises@.len() == idx + 1
                    &&& final(self).pending_promises@.take(idx as int)
                        == old(self).pending_promises@
                    &&& final(self).pending_promises@[idx as int].receiver_id == to
                    &&& final(self).pending_promises@[idx as int].action
                        == Action::ReadShardedData(action)
                    &&& final(self).pending_promises@[idx as int].action_callback is None
                    &&& r.1 >= BASE_PROMISE_COST
                },
                Err(_) => final(self).pending_promises@ == old(self).pending_promises@,
            },
    {
        self.enqueue(to, Action::ReadShardedData(action))
    }

    /// Attaches a callback to the promise at `promise_idx`. Fails when there
    /// is no such promise or it already has one; costs the base promise cost.
    pub fn promise_then(
        &mut self,
        promise_idx: usize,
        method: Vec<u8>,
        args: Vec<u8>,
        amount: IDNA,
        gas_limit: u64,
    ) -> (r: BackendResult<()>)
        ensures
            final(self).backend == old(self).backend,
            final(self).promise_result == old(self).promise_result,
            final(self).gas_limit == old(self).gas_limit,
            r.1 == BASE_PROMISE_COST,
            r.0 is Ok <==> promise_idx < old(self).pending_promises@.len()
                && old(self).pending_promises@[promise_idx as int].action_callback is None,
            r.0 is Ok ==> {
                &&& final(self).pending_promises@.len() == old(self).pending_promises@.len()
                &&& forall|j: int|
                    0 <= j < old(self).pending_promises@.len() && j != promise_idx
                        ==> final(self).pending_promises@[j] == old(self).pending_promises@[j]
                &&& final(self).pending_promises@[promise_idx as int].predecessor_id
                    == old(self).pending_promises@[promise_idx as int].predecessor_id
                &&& final(self).pending_promises@[promise_idx as int].receiver_id
                    == old(self).pending_promises@[promise_idx as int].receiver_id
                &&& final(self).pending_promises@[promise_idx as int].action
                    == old(self).pending_promises@[promise_idx as int].action
                &&& final(self).pending_promises@[promise_idx as int].action_callback is Some
                &&& callback_action(
                    final(self).pending_promises@[promise_idx as int].action_callback->Some_0,
                    method@,
                    args@,
                    amount@,
                    gas_limit,
                )
            },
            r.0 is Err ==> final(self).pending_promises@ == old(self).pending_promises@,
    {
        if promise_idx >= self.pending_promises.len() {
            return (Err(BackendError::new("invalid promise_idx")), BASE_PROMISE_COST);
        }
        if self.pending_promises[promise_idx].action_callback.is_some() {
            return (Err(BackendError::new("promise is completed")), BASE_PROMISE_COST);
        }
        let mut p = self.pending_promises.remove(promise_idx);
        p.action_callback = Some(
            Action::FunctionCall(
                FunctionCallAction {
                    gas_limit,
                    args,
                    method_name: lossy_string(method.as_slice()),
                    deposit: amount,
                },
            ),
        );
        self.pending_promises.insert(promise_idx, p);
        (Ok(()), BASE_PROMISE_COST)
    }

    /// A callback can be attached to the promise at `promise_idx`.
    pub fn can_attach(&self, promise_idx: usize) -> (r: bool)
        ensures
            r <==> promise_idx < self.pending_promises@.len()
                && self.pending_promises@[promise_idx as int].action_callback is None,
    {
        promise_idx < self.pending_promises.len() && self.pending_promises[promise_idx].action_callback.is_none()
    }

    /// Hands the queue over for draining and leaves it empty.
    pub fn take_promises(&mut self) -> (r: Vec<Promise>)
        ensures
            r@ == old(self).pending_promises@,
            final(self).pending_promises@.len() == 0,
            final(self).promise_result == old(self).promise_result,
            final(self).gas_limit == old(self).gas_limit,
            final(self).backend == old(self).backend,
    {
        let mut out: Vec<Promise> = Vec::new();
        out.append(&mut self.pending_promises);
        out
    }
}

} // verus!
