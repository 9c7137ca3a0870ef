use vstd::prelude::*;
use vstd::string::*;
use vstd::utf8::*;

use crate::args::{args_error, convert_args, parse_args, Argument};
use crate::backend::{backend_error_text, Backend, BackendError, HostCall};
use crate::gas::process_gas_info;
use crate::memory::{read_region, region_contents};
use crate::codec::{context_bytes, encode_invocation_context};
use crate::costs::{BASE_CALL_COST, BASE_DEPLOY_COST, BASE_PROMISE_COST, MAX_RETURN_VALUE_SIZE};
use crate::errors::{lemma_error_text_nonempty, vm_error_text, VmError, VmResult};
use crate::types::{
    copy_bytes, failed_node, same_opt_promise_result, same_promise_result, gas_consistent, gas_left_of, outcome_of, same_action, Action,
    ActionResult, Address, DeployContractAction, FunctionCallAction, Gas, InvocationContext, Promise, PromiseResult,
    ReadShardedDataAction,
};

verus! {

/// Runs contracts of one address under one gas limit, and drains the
/// promises that they leave.
pub struct VmRunner<B: Backend> {
    pub contact_addr: Address,
    pub api: B,
    pub gas_limit: Gas,
    pub ctx: Option<InvocationContext>,
    pub is_debug: bool,
}

/// A call of `a` on `addr` with the invocation context `ctx`.
pub open spec fn call_request(c: HostCall, addr: Seq<u8>, a: FunctionCallAction, ctx: InvocationContext) -> bool {
    &&& c.kind == 0
    &&& c.addr == addr
    &&& c.method == encode_utf8(a.method_name@)
    &&& c.args == a.args@
    &&& c.amount == a.deposit@
    &&& c.gas_limit == a.gas_limit
    &&& c.ctx == context_bytes(ctx)
}

/// A deploy of `d`.
pub open spec fn deploy_request(c: HostCall, d: DeployContractAction) -> bool {
    &&& c.kind == 1
    &&& c.code == d.code@
    &&& c.args == d.args@
    &&& c.nonce == d.nonce@
    &&& c.amount == d.deposit@
    &&& c.gas_limit == d.gas_limit
}

/// The text of a host failure, as a node shows it.
pub open spec fn host_failure_text(e: BackendError) -> Seq<char> {
    "Error calling the VM: "@ + ("backend error: "@ + backend_error_text(e))
}

/// The node of a call or deploy under the gas limit `limit`, from the host's
/// reply: the host's own node, or a failed node that names the action and
/// the receiver and keeps to the limit.
pub open spec fn reply_node(
    n: ActionResult,
    reply: Result<ActionResult, BackendError>,
    action: Action,
    contract: Seq<u8>,
    limit: u64,
) -> bool {
    match reply {
        Ok(h) => n == h,
        Err(e) => {
            &&& failed_node(n)
            &&& same_action(n.input_action, action)
            &&& n.contract@ == contract
            &&& n.error@ == host_failure_text(e)
            &&& n.sub_action_results@.len() == 0
            &&& gas_consistent(n, limit)
        },
    }
}

/// The node of a transfer: a success exactly when the host credited the
/// receiver.
pub open spec fn transfer_node_ok(
    n: ActionResult,
    credited: Result<(), BackendError>,
    action: Action,
    receiver: Seq<u8>,
) -> bool {
    &&& n.input_action == action
    &&& n.contract@ == receiver
    &&& n.gas_used == BASE_PROMISE_COST
    &&& n.remaining_gas == 0
    &&& n.output_data@.len() == 0
    &&& n.sub_action_results@.len() == 0
    &&& match credited {
        Ok(()) => n.success && n.error@.len() == 0,
        Err(e) => failed_node(n) && n.error@ == host_failure_text(e),
    }
}

/// The number of requests of a refund that follows a node: a credit and a
/// commit when it failed and carried a deposit, none otherwise.
pub open spec fn refund_len(n: ActionResult, deposit: Seq<u8>) -> nat {
    if !n.success && deposit.len() > 0 {
        2
    } else {
        0
    }
}

/// At `k` in `calls`: the deposit credited back to the predecessor, then a
/// commit.
pub open spec fn refunded(calls: Seq<HostCall>, k: int, predecessor: Seq<u8>, deposit: Seq<u8>) -> bool {
    &&& calls[k].kind == 2
    &&& calls[k].addr == predecessor
    &&& calls[k].amount == deposit
    &&& calls[k + 1].kind == 3
}

/// The promise runs a callback after its action.
pub open spec fn runs_callback(p: Promise) -> bool {
    &&& !(p.action is Unset)
    &&& p.action_callback is Some
    &&& p.action_callback->Some_0 is FunctionCall
}

/// The number of result nodes that draining the promise appends.
pub open spec fn group_size(p: Promise) -> nat {
    if p.action is Unset {
        0
    } else if runs_callback(p) {
        2
    } else {
        1
    }
}

/// Where the nodes of the `i`-th promise start among the drained results.
pub open spec fn group_start(ps: Seq<Promise>, i: int) -> nat
    decreases i,
{
    if i <= 0 {
        0
    } else {
        group_start(ps, i - 1) + group_size(ps[i - 1])
    }
}

/// The requests of a callback whose node is at `g + 1`.
pub open spec fn callback_len(p: Promise, nodes: Seq<ActionResult>, g: int) -> nat {
    if runs_callback(p) {
        1 + refund_len(nodes[g + 1], p.action_callback->Some_0->FunctionCall_0.deposit@)
    } else {
        0
    }
}

/// The number of host requests that draining the promise makes, its nodes
/// starting at `g`.
pub open spec fn calls_of(p: Promise, nodes: Seq<ActionResult>, g: int) -> nat {
    match p.action {
        Action::FunctionCall(a) => 1 + refund_len(nodes[g], a.deposit@) + callback_len(p, nodes, g),
        Action::DeployContract(d) => 1 + refund_len(nodes[g], d.deposit@) + callback_len(p, nodes, g),
        Action::Transfer(_) => 1 + callback_len(p, nodes, g),
        Action::ReadShardedData(_) => callback_len(p, nodes, g),
        Action::Unset => 0,
    }
}

/// Where the host requests of the `i`-th promise start.
pub open spec fn call_start(ps: Seq<Promise>, nodes: Seq<ActionResult>, i: int) -> nat
    decreases i,
{
    if i <= 0 {
        0
    } else {
        call_start(ps, nodes, i - 1) + calls_of(ps[i - 1], nodes, group_start(ps, i - 1) as int)
    }
}

/// What draining `p` did, its nodes starting at `g` in `nodes` and its host
/// requests at `c` in `calls`; `own` is this contract. A call or deploy is
/// asked of the host with the promise's values; its node is the host's, or a
/// failure naming the action; a failed one with a deposit is refunded to the
/// predecessor. A transfer credits the receiver, and its node succeeds
/// exactly when the host did. A callback follows.
pub open spec fn promise_drained(
    p: Promise,
    nodes: Seq<ActionResult>,
    g: int,
    calls: Seq<HostCall>,
    c: int,
    own: Seq<u8>,
) -> bool {
    match p.action {
        Action::FunctionCall(a) => {
            &&& call_request(
                calls[c],
                p.receiver_id@,
                a,
                InvocationContext { is_callback: false, promise_result: None },
            )
            &&& reply_node(nodes[g], calls[c].reply, p.action, p.receiver_id@, a.gas_limit)
            &&& refund_len(nodes[g], a.deposit@) == 2 ==> refunded(calls, c + 1, p.predecessor_id@, a.deposit@)
            &&& callback_drained(p, nodes, g, calls, c + 1 + refund_len(nodes[g], a.deposit@), own)
        },
        Action::DeployContract(d) => {
            &&& deploy_request(calls[c], d)
            &&& reply_node(nodes[g], calls[c].reply, p.action, p.receiver_id@, d.gas_limit)
            &&& refund_len(nodes[g], d.deposit@) == 2 ==> refunded(calls, c + 1, p.predecessor_id@, d.deposit@)
            &&& callback_drained(p, nodes, g, calls, c + 1 + refund_len(nodes[g], d.deposit@), own)
        },
        Action::Transfer(t) => {
            &&& calls[c].kind == 2
            &&& calls[c].addr == p.receiver_id@
            &&& calls[c].amount == t.amount@
            &&& transfer_node_ok(nodes[g], calls[c].credited, nodes[g].input_action, p.receiver_id@)
            &&& same_action(nodes[g].input_action, p.action)
            &&& callback_drained(p, nodes, g, calls, c + 1, own)
        },
        Action::ReadShardedData(_) => callback_drained(p, nodes, g, calls, c, own),
        Action::Unset => true,
    }
}

/// The callback of `p`, when it runs: a call on this contract, handed the
/// outcome of the promise's node at `g`; its node follows at `g + 1`, and a
/// failed one with a deposit is refunded.
pub open spec fn callback_drained(
    p: Promise,
    nodes: Seq<ActionResult>,
    g: int,
    calls: Seq<HostCall>,
    c: int,
    own: Seq<u8>,
) -> bool {
    runs_callback(p) ==> {
        let cb = p.action_callback->Some_0->FunctionCall_0;
        &&& call_request(
            calls[c],
            own,
            cb,
            InvocationContext { is_callback: true, promise_result: Some(outcome_of(nodes[g])) },
        )
        &&& reply_node(nodes[g + 1], calls[c].reply, p.action_callback->Some_0, own, cb.gas_limit)
        &&& refund_len(nodes[g + 1], cb.deposit@) == 2 ==> refunded(calls, c + 1, p.predecessor_id@, cb.deposit@)
    }
}

/// Every promise was drained as `promise_drained` says, and nothing else was
/// asked of the host.
pub open spec fn drained(
    ps: Seq<Promise>,
    nodes: Seq<ActionResult>,
    calls: Seq<HostCall>,
    c0: int,
    own: Seq<u8>,
) -> bool {
    &&& nodes.len() == group_start(ps, ps.len() as int)
    &&& calls.len() == c0 + call_start(ps, nodes, ps.len() as int)
    &&& forall|i: int|
        0 <= i < ps.len() ==> #[trigger] promise_drained(
            ps[i],
            nodes,
            group_start(ps, i) as int,
            calls,
            c0 + call_start(ps, nodes, i),
            own,
        )
}

/// The gas limit of a sharded read.
pub open spec fn read_limit(r: ReadShardedDataAction) -> u64 {
    match r {
        ReadShardedDataAction::ReadContractData(x) => x.gas_limit,
        ReadShardedDataAction::GetIdentity(x) => x.gas_limit,
    }
}

/// A node that the scheduler builds itself: it names the promise's action and
/// receiver, has no children, and is either a success or a proper failure.
pub open spec fn own_node(n: ActionResult, p: Promise) -> bool {
    &&& same_action(n.input_action, p.action)
    &&& n.contract@ == p.receiver_id@
    &&& n.sub_action_results@.len() == 0
    &&& (n.success || failed_node(n))
}

/// What is known of the first node of a promise, by the kind of its action.
pub open spec fn main_node_ok(n: ActionResult, p: Promise) -> bool {
    match p.action {
        Action::Transfer(_) => {
            &&& own_node(n, p)
            &&& n.gas_used == BASE_PROMISE_COST
            &&& n.remaining_gas == 0
            &&& n.output_data@.len() == 0
        },
        Action::ReadShardedData(r) => own_node(n, p) && gas_consistent(n, read_limit(r)),
        _ => true,
    }
}

/// The total of `remaining_gas` over some nodes.
pub open spec fn sum_remaining(s: Seq<ActionResult>) -> nat
    decreases s.len(),
{
    if s.len() == 0 {
        0
    } else {
        sum_remaining(s.drop_last()) + s.last().remaining_gas as nat
    }
}

/// The part of a frame's gas that its children hand back.
pub open spec fn refund_of(children: Seq<ActionResult>, used: u64) -> u64 {
    if sum_remaining(children) >= used {
        used
    } else {
        sum_remaining(children) as u64
    }
}

impl<B: Backend> VmRunner<B> {
    pub fn new(
        api: B,
        contract_addr: Address,
        gas_limit: Gas,
        ctx: Option<InvocationContext>,
        is_debug: bool,
    ) -> (r: VmRunner<B>)
        ensures
            r.contact_addr == contract_addr,
            r.api == api,
            r.gas_limit == gas_limit,
            r.ctx == ctx,
            r.is_debug == is_debug,
    {
        VmRunner { contact_addr: contract_addr, api, gas_limit, ctx, is_debug }
    }

    /// A failed node: the error's text, no output, no children.
    pub fn action_result_from_err(
        err: VmError,
        contract: Address,
        input_action: Action,
        gas_used: u64,
        gas_limit: u64,
    ) -> (r: ActionResult)
        ensures
            r.error@ == vm_error_text(err),
            failed_node(r),
            r.contract == contract,
            r.input_action == input_action,
            r.gas_used == gas_used,
            r.remaining_gas == gas_left_of(gas_limit, gas_used),
            r.sub_action_results@.len() == 0,
            gas_used <= gas_limit ==> gas_consistent(r, gas_limit),
    {
        proof {
            lemma_error_text_nonempty(err);
        }
        ActionResult {
            contract,
            error: err.to_string(),
            success: false,
            gas_used,
            remaining_gas: gas_limit.saturating_sub(gas_used),
            input_action,
            sub_action_results: Vec::new(),
            output_data: Vec::new(),
        }
    }

    /// A successful node with the given output and no children.
    pub fn action_result_from_success(
        input_action: Action,
        contract: Address,
        output_data: Vec<u8>,
        gas_used: u64,
        gas_limit: u64,
    ) -> (r: ActionResult)
        ensures
            r.success,
            r.error@.len() == 0,
            r.output_data == output_data,
            r.contract == contract,
            r.input_action == input_action,
            r.gas_used == gas_used,
            r.remaining_gas == gas_left_of(gas_limit, gas_used),
            r.sub_action_results@.len() == 0,
            gas_used <= gas_limit ==> gas_consistent(r, gas_limit),
    {
        ActionResult {
            contract,
            error: String::new(),
            success: true,
            gas_used,
            remaining_gas: gas_limit.saturating_sub(gas_used),
            input_action,
            sub_action_results: Vec::new(),
            output_data,
        }
    }

    /// Asks the host to run `action` on `contract`, with an invocation context
    /// that carries `promise_result`; `gas_used` receives what the host charged.
    pub fn apply_function_call(
        &mut self,
        contract: Address,
        action: &FunctionCallAction,
        promise_result: Option<PromiseResult>,
        gas_used: &mut u64,
        is_callback: bool,
    ) -> (r: VmResult<ActionResult>)
        ensures
            final(self).api.requests().len() == old(self).api.requests().len() + 1,
            final(self).api.requests().drop_last() == old(self).api.requests(),
            ({
                let c = final(self).api.requests().last();
                &&& call_request(c, contract@, *action, InvocationContext { is_callback, promise_result })
                &&& *final(gas_used) == c.gas
                &&& match c.reply {
                    Ok(n) => r == Ok::<ActionResult, VmError>(n),
                    Err(e) => r matches Err(x) && x is Custom && x->Custom_msg@ == "backend error: "@
                        + backend_error_text(e),
                }
            }),
            final(self).contact_addr == old(self).contact_addr,
            final(self).gas_limit == old(self).gas_limit,
    {
        let ctx = InvocationContext { is_callback, promise_result };
        let ctx_bytes = encode_invocation_context(&ctx);
        let (res, gas) = self.api.call(
            contract,
            action.method_name.as_str().as_bytes(),
            action.args.as_slice(),
            action.deposit.as_slice(),
            action.gas_limit,
            ctx_bytes.as_slice(),
        );
        *gas_used = gas;
        assert(self.api.requests().drop_last() =~= old(self).api.requests());
        match res {
            Ok(v) => Ok(v),
            Err(e) => Err(VmError::from_backend(e)),
        }
    }

    /// Builds the node of a finished call or deploy under `gas_limit`,
    /// refunding `deposit` to `predecessor`, with a commit, when it failed;
    /// returns the outcome for a callback.
    fn settle(
        &mut self,
        outcome: VmResult<ActionResult>,
        predecessor: &Address,
        deposit: &Vec<u8>,
        contract: Address,
        action: Action,
        gas_used: u64,
        gas_limit: u64,
    ) -> (r: (ActionResult, PromiseResult))
        ensures
            same_promise_result(r.1, outcome_of(r.0)),
            match outcome {
                Ok(n) => r.0 == n,
                Err(e) => {
                    &&& failed_node(r.0)
                    &&& r.0.input_action == action
                    &&& r.0.contract == contract
                    &&& r.0.error@ == vm_error_text(e)
                    &&& r.0.sub_action_results@.len() == 0
                    &&& gas_consistent(r.0, gas_limit)
                    &&& r.1 is Failed
                },
            },
            final(self).api.requests().len() == old(self).api.requests().len() + refund_len(
                r.0,
                deposit@,
            ),
            final(self).api.requests().take(old(self).api.requests().len() as int) == old(
                self,
            ).api.requests(),
            refund_len(r.0, deposit@) == 2 ==> refunded(
                final(self).api.requests(),
                old(self).api.requests().len() as int,
                predecessor@,
                deposit@,
            ),
            final(self).contact_addr == old(self).contact_addr,
            final(self).gas_limit == old(self).gas_limit,
    {
        let failed = match &outcome {
            Ok(n) => !n.success,
            Err(_) => true,
        };
        if failed && deposit.len() > 0 {
            let _ = self.api.add_balance(copy_bytes(predecessor), copy_bytes(deposit));
            let _ = self.api.commit();
        }
        assert(self.api.requests().take(old(self).api.requests().len() as int) =~= old(
            self,
        ).api.requests());
        match outcome {
            Ok(n) => {
                let pr = if !n.success {
                    PromiseResult::Failed
                } else if n.output_data.len() == 0 {
                    PromiseResult::Empty
                } else {
                    PromiseResult::Value(copy_bytes(&n.output_data))
                };
                (n, pr)
            },
            Err(e) => {
                let charged = if gas_used > gas_limit { gas_limit } else { gas_used };
                let n = Self::action_result_from_err(e, contract, action, charged, gas_limit);
                (n, PromiseResult::Failed)
            },
        }
    }

    /// The node of a sharded read, from what the host returned: out of gas
    /// when it charged more than `gas_limit`, else a success carrying the
    /// data, or a failure with the host's error.
    pub fn execute_read_sharded_data(
        action_res: (Result<Option<Vec<u8>>, crate::backend::BackendError>, u64),
        address: Address,
        result: &mut Vec<ActionResult>,
        action: Action,
        gas_limit: u64,
    ) -> (pr: PromiseResult)
        ensures
            final(result)@.len() == old(result)@.len() + 1,
            final(result)@.drop_last() == old(result)@,
            forall|k: int| 0 <= k < old(result)@.len() ==> final(result)@[k] == old(result)@[k],
            ({
                let n = final(result)@.last();
                &&& n.input_action == action
                &&& n.contract == address
                &&& n.sub_action_results@.len() == 0
                &&& gas_consistent(n, gas_limit)
                &&& (n.success || failed_node(n))
                &&& same_promise_result(pr, outcome_of(n))
                &&& if action_res.1 > gas_limit {
                    &&& n.error@ == vm_error_text(VmError::OutOfGas)
                    &&& failed_node(n)
                    &&& n.gas_used == gas_limit
                    &&& pr is Failed
                } else {
                    &&& n.gas_used == action_res.1
                    &&& match action_res.0 {
                        Ok(None) => n.success && n.output_data@.len() == 0,
                        Ok(Some(v)) => n.success && n.output_data@ == v@,
                        Err(_) => failed_node(n),
                    }
                }
            }),
    {
        let (res, gas) = action_res;
        if gas > gas_limit {
            let n = Self::action_result_from_err(
                VmError::out_of_gas(),
                address,
                action,
                gas_limit,
                gas_limit,
            );
            result.push(n);
            return PromiseResult::Failed;
        }
        match res {
            Ok(None) => {
                let n = Self::action_result_from_success(action, address, Vec::new(), gas, gas_limit);
                result.push(n);
                PromiseResult::Empty
            },
            Ok(Some(v)) => {
                let data = copy_bytes(&v);
                let empty = v.len() == 0;
                let n = Self::action_result_from_success(action, address, v, gas, gas_limit);
                result.push(n);
                if empty {
                    PromiseResult::Empty
                } else {
                    PromiseResult::Value(data)
                }
            },
            Err(e) => {
                let n = Self::action_result_from_err(
                    VmError::from_backend(e),
                    address,
                    action,
                    gas,
                    gas_limit,
                );
                result.push(n);
                PromiseResult::Failed
            },
        }
    }

    /// Runs the callback of `p`, if it has one, on this contract with the
    /// outcome of the promise; refunds the callback's deposit when it fails.
    fn run_callback(&mut self, result: &mut Vec<ActionResult>, p: &Promise, promise_result: PromiseResult)
        ensures
            final(self).contact_addr == old(self).contact_addr,
            final(self).gas_limit == old(self).gas_limit,
            forall|k: int| 0 <= k < old(result)@.len() ==> final(result)@[k] == old(result)@[k],
            forall|k: int|
                0 <= k < old(self).api.requests().len() ==> final(self).api.requests()[k] == old(
                    self,
                ).api.requests()[k],
            (p.action_callback is Some && p.action_callback->Some_0 is FunctionCall) ==> {
                let cb = p.action_callback->Some_0->FunctionCall_0;
                let k = old(self).api.requests().len() as int;
                let c = final(self).api.requests()[k];
                let n = final(result)@.last();
                &&& final(result)@.len() == old(result)@.len() + 1
                &&& final(self).api.requests().len() == k + 1 + refund_len(n, cb.deposit@)
                &&& call_request(
                    c,
                    old(self).contact_addr@,
                    cb,
                    InvocationContext { is_callback: true, promise_result: Some(promise_result) },
                )
                &&& reply_node(n, c.reply, p.action_callback->Some_0, old(self).contact_addr@, cb.gas_limit)
                &&& refund_len(n, cb.deposit@) == 2 ==> refunded(
                    final(self).api.requests(),
                    k + 1,
                    p.predecessor_id@,
                    cb.deposit@,
                )
            },
            !(p.action_callback is Some && p.action_callback->Some_0 is FunctionCall) ==> {
                &&& final(result)@ == old(result)@
                &&& final(self).api.requests() == old(self).api.requests()
            },
    {
        match &p.action_callback {
            Some(Action::FunctionCall(call)) => {
                let mut gas_used: u64 = 0;
                let outcome = self.apply_function_call(
                    copy_bytes(&self.contact_addr),
                    call,
                    Some(promise_result),
                    &mut gas_used,
                    true,
                );
                let ghost after_call = self.api.requests();
                let action = Action::FunctionCall(call.duplicate());
                let contract = copy_bytes(&self.contact_addr);
                let (node, _) = self.settle(
                    outcome,
                    &p.predecessor_id,
                    &call.deposit,
                    contract,
                    action,
                    gas_used,
                    call.gas_limit,
                );
                proof {
                    assert(self.api.requests()[old(self).api.requests().len() as int]
                        == after_call[old(self).api.requests().len() as int]);
                }
                result.push(node);
            },
            _ => {},
        }
    }

    /// The node of a transfer, from the host's answer to the credit of the
    /// receiver: a success, or a failure with the host's error. It used the
    /// base promise cost, paid when the promise was queued.
    pub fn transfer_node(credited: Result<(), BackendError>, receiver: Address, action: Action) -> (r:
        ActionResult)
        ensures
            transfer_node_ok(r, credited, action, receiver@),
            r.input_action == action,
    {
        match credited {
            Ok(()) => Self::action_result_from_success(
                action,
                receiver,
                Vec::new(),
                BASE_PROMISE_COST,
                BASE_PROMISE_COST,
            ),
            Err(e) => Self::action_result_from_err(
                VmError::from_backend(e),
                receiver,
                action,
                BASE_PROMISE_COST,
                BASE_PROMISE_COST,
            ),
        }
    }

    /// Drains `promises` in order. Each promise appends the node of its
    /// action, then, when it has one, the node of its callback; what it asks
    /// of the host is appended to the host's requests.
    pub fn execute_promises(&mut self, promises: Vec<Promise>) -> (r: Vec<ActionResult>)
        ensures
            r@.len() == group_start(promises@, promises@.len() as int),
            forall|i: int|
                0 <= i < promises@.len() && !(promises@[i].action is Unset) ==> main_node_ok(
                    #[trigger] r@[group_start(promises@, i) as int],
                    promises@[i],
                ),
            drained(
                promises@,
                r@,
                final(self).api.requests(),
                old(self).api.requests().len() as int,
                old(self).contact_addr@,
            ),
            final(self).api.requests().take(old(self).api.requests().len() as int) == old(
                self,
            ).api.requests(),
            final(self).contact_addr == old(self).contact_addr,
            final(self).gas_limit == old(self).gas_limit,
    {
        let ghost c0 = self.api.requests().len() as int;
        let ghost own = self.contact_addr@;
        let mut result: Vec<ActionResult> = Vec::new();
        let mut i: usize = 0;
        assert(self.api.requests().take(c0) =~= old(self).api.requests());
        while i < promises.len()
            invariant
                i <= promises@.len(),
                result@.len() == group_start(promises@, i as int),
                self.api.requests().len() == c0 + call_start(promises@, result@, i as int),
                self.api.requests().take(c0) == old(self).api.requests(),
                c0 == old(self).api.requests().len(),
                own == self.contact_addr@,
                forall|j: int|
                    0 <= j < i && !(promises@[j].action is Unset) ==> main_node_ok(
                        #[trigger] result@[group_start(promises@, j) as int],
                        promises@[j],
                    ),
                forall|j: int|
                    0 <= j < i ==> #[trigger] promise_drained(
                        promises@[j],
                        result@,
                        group_start(promises@, j) as int,
                        self.api.requests(),
                        c0 + call_start(promises@, result@, j),
                        own,
                    ),
                self.contact_addr == old(self).contact_addr,
                self.gas_limit == old(self).gas_limit,
            decreases promises@.len() - i,
        {
            let ghost before = result@;
            let ghost calls_before = self.api.requests();
            let p = &promises[i];
            let ghost g = before.len() as int;
            let ghost c = calls_before.len() as int;
            match &p.action {
                Action::FunctionCall(call) => {
                    let mut gas_used: u64 = 0;
                    let outcome = self.apply_function_call(
                        copy_bytes(&p.receiver_id),
                        call,
                        None,
                        &mut gas_used,
                        false,
                    );
                    let ghost after_call = self.api.requests();
                    let (node, pr) = self.settle(
                        outcome,
                        &p.predecessor_id,
                        &call.deposit,
                        copy_bytes(&p.receiver_id),
                        p.action.duplicate(),
                        gas_used,
                        call.gas_limit,
                    );
                    proof {
                        assert forall|k: int| 0 <= k < c implies after_call[k] == calls_before[k] by {
                            assert(after_call.drop_last()[k] == after_call[k]);
                        }
                        assert forall|k: int| 0 <= k <= c implies self.api.requests()[k] == after_call[k] by {
                            assert(self.api.requests().take(c + 1)[k] == self.api.requests()[k]);
                        }
                    }
                    result.push(node);
                    let ghost nodes_mid = result@;
                    let ghost mid_calls = self.api.requests();
                    assert(forall|k: int| 0 <= k < c ==> mid_calls[k] == calls_before[k]);
                    self.run_callback(&mut result, p, pr);
                    proof {
                        assert forall|k: int| 0 <= k < c implies self.api.requests()[k] == calls_before[k] by {
                            assert(mid_calls[k] == calls_before[k]);
                        }
                        assert(result@[g] == nodes_mid[g]);
                        if runs_callback(*p) {
                            lemma_outcome_bytes(pr, outcome_of(result@[g]));
                        }
                    }
                },
                Action::DeployContract(d) => {
                    let (res, gas) = self.api.deploy(
                        d.code.as_slice(),
                        d.args.as_slice(),
                        d.nonce.as_slice(),
                        d.deposit.as_slice(),
                        d.gas_limit,
                    );
                    let ghost after_call = self.api.requests();
                    let outcome = match res {
                        Ok(n) => Ok(n),
                        Err(e) => Err(VmError::from_backend(e)),
                    };
                    let (node, pr) = self.settle(
                        outcome,
                        &p.predecessor_id,
                        &d.deposit,
                        copy_bytes(&p.receiver_id),
                        p.action.duplicate(),
                        gas,
                        d.gas_limit,
                    );
                    proof {
                        assert forall|k: int| 0 <= k < c implies after_call[k] == calls_before[k] by {
                            assert(after_call.drop_last()[k] == after_call[k]);
                        }
                        assert forall|k: int| 0 <= k <= c implies self.api.requests()[k] == after_call[k] by {
                            assert(self.api.requests().take(c + 1)[k] == self.api.requests()[k]);
                        }
                    }
                    result.push(node);
                    let ghost nodes_mid = result@;
                    let ghost mid_calls = self.api.requests();
                    assert(forall|k: int| 0 <= k < c ==> mid_calls[k] == calls_before[k]);
                    self.run_callback(&mut result, p, pr);
                    proof {
                        assert forall|k: int| 0 <= k < c implies self.api.requests()[k] == calls_before[k] by {
                            assert(mid_calls[k] == calls_before[k]);
                        }
                        assert(result@[g] == nodes_mid[g]);
                        if runs_callback(*p) {
                            lemma_outcome_bytes(pr, outcome_of(result@[g]));
                        }
                    }
                },
                Action::Transfer(t) => {
                    let (res, _) = self.api.add_balance(copy_bytes(&p.receiver_id), copy_bytes(&t.amount));
                    let ok = res.is_ok();
                    let node = Self::transfer_node(res, copy_bytes(&p.receiver_id), p.action.duplicate());
                    let pr = if ok {
                        PromiseResult::Empty
                    } else {
                        PromiseResult::Failed
                    };
                    result.push(node);
                    let ghost nodes_mid = result@;
                    let ghost mid_calls = self.api.requests();
                    assert(forall|k: int| 0 <= k < c ==> mid_calls[k] == calls_before[k]);
                    self.run_callback(&mut result, p, pr);
                    proof {
                        assert forall|k: int| 0 <= k < c implies self.api.requests()[k] == calls_before[k] by {
                            assert(mid_calls[k] == calls_before[k]);
                        }
                        assert(result@[g] == nodes_mid[g]);
                        if runs_callback(*p) {
                            lemma_outcome_bytes(pr, outcome_of(result@[g]));
                        }
                    }
                },
                Action::ReadShardedData(ReadShardedDataAction::ReadContractData(req)) => {
                    let ar = self.api.read_contract_data(copy_bytes(&p.receiver_id), copy_bytes(&req.key));
                    let pr = Self::execute_read_sharded_data(
                        ar,
                        copy_bytes(&p.receiver_id),
                        &mut result,
                        p.action.duplicate(),
                        req.gas_limit,
                    );
                    let ghost nodes_mid = result@;
                    let ghost mid_calls = self.api.requests();
                    assert(forall|k: int| 0 <= k < c ==> mid_calls[k] == calls_before[k]);
                    self.run_callback(&mut result, p, pr);
                    proof {
                        assert forall|k: int| 0 <= k < c implies self.api.requests()[k] == calls_before[k] by {
                            assert(mid_calls[k] == calls_before[k]);
                        }
                        assert(result@[g] == nodes_mid[g]);
                        if runs_callback(*p) {
                            lemma_outcome_bytes(pr, outcome_of(result@[g]));
                        }
                    }
                },
                Action::ReadShardedData(ReadShardedDataAction::GetIdentity(req)) => {
                    let ar = self.api.identity(copy_bytes(&req.addr));
                    let pr = Self::execute_read_sharded_data(
                        ar,
                        copy_bytes(&p.receiver_id),
                        &mut result,
                        p.action.duplicate(),
                        req.gas_limit,
                    );
                    let ghost nodes_mid = result@;
                    let ghost mid_calls = self.api.requests();
                    assert(forall|k: int| 0 <= k < c ==> mid_calls[k] == calls_before[k]);
                    self.run_callback(&mut result, p, pr);
                    proof {
                        assert forall|k: int| 0 <= k < c implies self.api.requests()[k] == calls_before[k] by {
                            assert(mid_calls[k] == calls_before[k]);
                        }
                        assert(result@[g] == nodes_mid[g]);
                        if runs_callback(*p) {
                            lemma_outcome_bytes(pr, outcome_of(result@[g]));
                        }
                    }
                },
                Action::Unset => {},
            }
            proof {
                assert(result@.len() == group_start(promises@, i + 1));
                lemma_call_start_frame(promises@, before, result@, i as int);
                assert(self.api.requests().len() == c0 + call_start(promises@, result@, i + 1));
                assert(promise_drained(promises@[i as int], result@, g, self.api.requests(), c, own));
                assert forall|j: int|
                    0 <= j < i && !(promises@[j].action is Unset) implies #[trigger] result@[group_start(
                        promises@,
                        j,
                    ) as int] == before[group_start(promises@, j) as int] by {
                    lemma_group_start_mono(promises@, j + 1, i as int);
                }
                assert forall|j: int| 0 <= j < i + 1 implies #[trigger] promise_drained(
                    promises@[j],
                    result@,
                    group_start(promises@, j) as int,
                    self.api.requests(),
                    c0 + call_start(promises@, result@, j),
                    own,
                ) by {
                    if j < i {
                        lemma_group_start_mono(promises@, j + 1, i as int);
                        lemma_call_start_mono(promises@, before, j + 1, i as int);
                        lemma_call_start_frame(promises@, before, result@, j);
                        lemma_drained_frame(
                            promises@[j],
                            before,
                            result@,
                            group_start(promises@, j) as int,
                            calls_before,
                            self.api.requests(),
                            c0 + call_start(promises@, before, j),
                            own,
                        );
                    }
                }
                assert(self.api.requests().take(c0) =~= old(self).api.requests());
            }
            i = i + 1;
        }
        proof {
            assert forall|k: int| 0 <= k < promises@.len() implies #[trigger] promise_drained(
                promises@[k],
                result@,
                group_start(promises@, k) as int,
                self.api.requests(),
                c0 + call_start(promises@, result@, k),
                own,
            ) by {}
        }
        result
    }

    /// The refund that `children` owe a frame that used `used`: the total of
    /// their remaining gas, at most `used`.
    pub fn gas_refund(children: &Vec<ActionResult>, used: u64) -> (r: u64)
        ensures
            r == refund_of(children@, used),
    {
        let mut acc: u64 = 0;
        let mut i: usize = 0;
        while i < children.len()
            invariant
                i <= children@.len(),
                acc == refund_of(children@.take(i as int), used),
            decreases children@.len() - i,
        {
            let rem = children[i].remaining_gas;
            if rem >= used - acc {
                acc = used;
            } else {
                acc = acc + rem;
            }
            assert(children@.take(i + 1).drop_last() =~= children@.take(i as int));
            i = i + 1;
        }
        assert(children@.take(i as int) =~= children@);
        acc
    }

    /// Completes a frame whose guest export returned: commits, drains the
    /// promises under this node, and subtracts the children's remaining gas
    /// from `gas_used`.
    pub fn complete_call(
        &mut self,
        input_action: Action,
        output_data: Vec<u8>,
        gas_used: u64,
        promises: Vec<Promise>,
    ) -> (r: ActionResult)
        ensures
            r.success,
            r.error@.len() == 0,
            r.output_data == output_data,
            r.input_action == input_action,
            r.contract@ == old(self).contact_addr@,
            r.sub_action_results@.len() == group_start(promises@, promises@.len() as int),
            forall|i: int|
                0 <= i < promises@.len() && !(promises@[i].action is Unset) ==> main_node_ok(
                    #[trigger] r.sub_action_results@[group_start(promises@, i) as int],
                    promises@[i],
                ),
            r.gas_used == gas_used - refund_of(r.sub_action_results@, gas_used),
            r.remaining_gas == gas_left_of(old(self).gas_limit, r.gas_used),
            gas_used <= old(self).gas_limit ==> gas_consistent(r, old(self).gas_limit),
            final(self).api.requests().len() > old(self).api.requests().len(),
            final(self).api.requests()[old(self).api.requests().len() as int].kind == 3,
            final(self).api.requests().take(old(self).api.requests().len() as int) == old(self).api.requests(),
            drained(
                promises@,
                r.sub_action_results@,
                final(self).api.requests(),
                old(self).api.requests().len() + 1int,
                old(self).contact_addr@,
            ),
            final(self).contact_addr == old(self).contact_addr,
            final(self).gas_limit == old(self).gas_limit,
    {
        let mut res = Self::action_result_from_success(
            input_action,
            copy_bytes(&self.contact_addr),
            output_data,
            gas_used,
            self.gas_limit,
        );
        let _ = self.api.commit();
        let ghost committed = self.api.requests();
        let children = self.execute_promises(promises);
        proof {
            let k = old(self).api.requests().len() as int;
            assert(self.api.requests().take(k + 1)[k] == committed.take(k + 1)[k]);
            assert(self.api.requests().take(k) =~= old(self).api.requests());
        }
        let refund = Self::gas_refund(&children, gas_used);
        res.append_sub_action_results(children);
        assert(res.sub_action_results@ =~= children@);
        let used = gas_used - refund;
        res.gas_used = used;
        res.remaining_gas = self.gas_limit.saturating_sub(used);
        res
    }

    /// The record of this call, as its node names it.
    pub fn call_input_action(&self, method: &String, arg_bytes: &[u8]) -> (r: Action)
        ensures
            r is FunctionCall,
            r->FunctionCall_0.gas_limit == self.gas_limit,
            r->FunctionCall_0.deposit@.len() == 0,
            r->FunctionCall_0.args@ == arg_bytes@,
            r->FunctionCall_0.method_name@ == method@,
    {
        Action::FunctionCall(
            FunctionCallAction {
                gas_limit: self.gas_limit,
                deposit: Vec::new(),
                args: copy_slice(arg_bytes),
                method_name: method.clone(),
            },
        )
    }

    /// The record of this deploy, as its node names it; the code is left out.
    pub fn deploy_input_action(&self, arg_bytes: &[u8]) -> (r: Action)
        ensures
            r is DeployContract,
            r->DeployContract_0.gas_limit == self.gas_limit,
            r->DeployContract_0.deposit@.len() == 0,
            r->DeployContract_0.args@ == arg_bytes@,
            r->DeployContract_0.code@.len() == 0,
            r->DeployContract_0.nonce@.len() == 0,
    {
        Action::DeployContract(
            DeployContractAction {
                gas_limit: self.gas_limit,
                deposit: Vec::new(),
                args: copy_slice(arg_bytes),
                nonce: Vec::new(),
                code: Vec::new(),
            },
        )
    }

    /// A failed node of this frame.
    pub fn fail(&self, err: VmError, input_action: Action, gas_used: u64) -> (r: ActionResult)
        ensures
            failed_node(r),
            r.error@ == vm_error_text(err),
            r.input_action == input_action,
            r.contract@ == self.contact_addr@,
            r.gas_used == gas_used,
            r.remaining_gas == gas_left_of(self.gas_limit, gas_used),
            r.sub_action_results@.len() == 0,
    {
        Self::action_result_from_err(err, copy_bytes(&self.contact_addr), input_action, gas_used, self.gas_limit)
    }

    /// Charges `base_cost` before any guest code runs; the gas left for the
    /// guest, or `OutOfGas` when nothing is left.
    pub fn preflight(&self, base_cost: u64) -> (r: VmResult<u64>)
        ensures
            match r {
                Ok(left) => left == self.gas_limit - base_cost && left > 0,
                Err(e) => e == VmError::OutOfGas && base_cost >= self.gas_limit,
            },
    {
        let mut left = self.gas_limit;
        process_gas_info(&mut left, base_cost)?;
        Ok(left)
    }

    /// The invocation context of this frame; none means a plain call.
    pub fn context(&self) -> (r: InvocationContext)
        ensures
            match self.ctx {
                Some(c) => r.is_callback == c.is_callback && same_opt_promise_result(
                    r.promise_result,
                    c.promise_result,
                ),
                None => !r.is_callback && r.promise_result is None,
            },
    {
        match &self.ctx {
            Some(c) => InvocationContext {
                is_callback: c.is_callback,
                promise_result: match &c.promise_result {
                    Some(p) => Some(p.duplicate()),
                    None => None,
                },
            },
            None => InvocationContext::new(),
        }
    }

    /// The gas a frame used, from what its guest has left.
    pub fn gas_used_after(&self, gas_left: u64) -> (r: u64)
        ensures
            r == gas_left_of(self.gas_limit, gas_left) as u64,
            r <= self.gas_limit,
    {
        self.gas_limit.saturating_sub(gas_left)
    }

    /// Everything a call does before the guest is instantiated: the base
    /// charge, the method checks, and the decoding of the arguments. A refusal
    /// is the failed node to return; it has used the base cost, or the whole
    /// limit when the base cost does not fit in it.
    pub fn prepare_execute(&self, method: &String, arg_bytes: &[u8], is_callback: bool) -> (r: Result<
        (Action, u64, Vec<Argument>),
        ActionResult,
    >)
        ensures
            match r {
                Ok((action, left, args)) => {
                    &&& left == self.gas_limit - BASE_CALL_COST
                    &&& left > 0
                    &&& method_allowed(method@, is_callback)
                    &&& parse_args(arg_bytes@) is Some
                    &&& crate::args::args_match(args@, parse_args(arg_bytes@)->Some_0)
                    &&& action is FunctionCall
                    &&& action->FunctionCall_0.method_name@ == method@
                    &&& action->FunctionCall_0.args@ == arg_bytes@
                    &&& action->FunctionCall_0.gas_limit == self.gas_limit
                    &&& action->FunctionCall_0.deposit@.len() == 0
                },
                Err(n) => {
                    &&& failed_node(n)
                    &&& n.gas_used == base_charge(self.gas_limit, BASE_CALL_COST)
                    &&& gas_consistent(n, self.gas_limit)
                    &&& n.sub_action_results@.len() == 0
                    &&& n.contract@ == self.contact_addr@
                    &&& n.input_action is FunctionCall
                    &&& n.error@ == if BASE_CALL_COST >= self.gas_limit {
                        vm_error_text(VmError::OutOfGas)
                    } else if !method_allowed(method@, is_callback) {
                        "Error calling the VM: "@ + method_error(method@)
                    } else {
                        "Error calling the VM: "@ + args_error(arg_bytes@)
                    }
                },
            },
            r is Ok <==> (BASE_CALL_COST < self.gas_limit && method_allowed(method@, is_callback)
                && parse_args(arg_bytes@) is Some),
    {
        let input_action = self.call_input_action(method, arg_bytes);
        let charged = if BASE_CALL_COST >= self.gas_limit { self.gas_limit } else { BASE_CALL_COST };
        let left = match self.preflight(BASE_CALL_COST) {
            Ok(l) => l,
            Err(e) => return Err(self.fail(e, input_action, charged)),
        };
        match check_method(method.as_str(), is_callback) {
            Ok(()) => {},
            Err(e) => return Err(self.fail(e, input_action, charged)),
        }
        match convert_args(arg_bytes) {
            Ok(args) => Ok((input_action, left, args)),
            Err(e) => Err(self.fail(e, input_action, charged)),
        }
    }

    /// Like `prepare_execute`, for a deploy: base charge and arguments.
    pub fn prepare_deploy(&self, arg_bytes: &[u8]) -> (r: Result<(Action, u64, Vec<Argument>), ActionResult>)
        ensures
            match r {
                Ok((action, left, args)) => {
                    &&& left == self.gas_limit - BASE_DEPLOY_COST
                    &&& left > 0
                    &&& parse_args(arg_bytes@) is Some
                    &&& crate::args::args_match(args@, parse_args(arg_bytes@)->Some_0)
                    &&& action is DeployContract
                    &&& action->DeployContract_0.args@ == arg_bytes@
                    &&& action->DeployContract_0.gas_limit == self.gas_limit
                },
                Err(n) => {
                    &&& failed_node(n)
                    &&& n.gas_used == base_charge(self.gas_limit, BASE_DEPLOY_COST)
                    &&& gas_consistent(n, self.gas_limit)
                    &&& n.sub_action_results@.len() == 0
                    &&& n.contract@ == self.contact_addr@
                    &&& n.input_action is DeployContract
                    &&& n.error@ == if BASE_DEPLOY_COST >= self.gas_limit {
                        vm_error_text(VmError::OutOfGas)
                    } else {
                        "Error calling the VM: "@ + args_error(arg_bytes@)
                    }
                },
            },
            r is Ok <==> (BASE_DEPLOY_COST < self.gas_limit && parse_args(arg_bytes@) is Some),
    {
        let input_action = self.deploy_input_action(arg_bytes);
        let charged = if BASE_DEPLOY_COST >= self.gas_limit { self.gas_limit } else { BASE_DEPLOY_COST };
        let left = match self.preflight(BASE_DEPLOY_COST) {
            Ok(l) => l,
            Err(e) => return Err(self.fail(e, input_action, charged)),
        };
        match convert_args(arg_bytes) {
            Ok(args) => Ok((input_action, left, args)),
            Err(e) => Err(self.fail(e, input_action, charged)),
        }
    }

    /// Completes a frame from what its guest did: a trap gives a failed node;
    /// a return reads the output, when the first returned value is a positive
    /// region pointer, and drains the promises. `gas_left` is what the guest
    /// had left.
    pub fn finish(
        &mut self,
        input_action: Action,
        outcome: GuestOutcome,
        gas_left: u64,
        m: &[u8],
        promises: Vec<Promise>,
    ) -> (r: ActionResult)
        ensures
            r.contract@ == old(self).contact_addr@,
            r.input_action == input_action,
            r.remaining_gas == gas_left_of(old(self).gas_limit, r.gas_used),
            r.gas_used <= old(self).gas_limit,
            gas_consistent(r, old(self).gas_limit),
            match outcome {
                GuestOutcome::Trapped(e) => {
                    &&& failed_node(r)
                    &&& r.error@ == vm_error_text(e)
                    &&& r.gas_used == gas_left_of(old(self).gas_limit, gas_left)
                    &&& r.sub_action_results@.len() == 0
                    &&& final(self).api.requests() == old(self).api.requests()
                },
                GuestOutcome::Returned(first) => {
                    let used = gas_left_of(old(self).gas_limit, gas_left);
                    &&& r.success
                    &&& r.output_data@ == output_of(m@, first)
                    &&& r.sub_action_results@.len() == group_start(promises@, promises@.len() as int)
                    &&& forall|i: int|
                        0 <= i < promises@.len() && !(promises@[i].action is Unset) ==> main_node_ok(
                            #[trigger] r.sub_action_results@[group_start(promises@, i) as int],
                            promises@[i],
                        )
                    &&& r.gas_used == used - refund_of(r.sub_action_results@, used)
                    &&& final(self).api.requests()[old(self).api.requests().len() as int].kind == 3
                    &&& final(self).api.requests().take(old(self).api.requests().len() as int) == old(self).api.requests()
                    &&& drained(
                        promises@,
                        r.sub_action_results@,
                        final(self).api.requests(),
                        old(self).api.requests().len() + 1int,
                        old(self).contact_addr@,
                    )
                },
            },
    {
        let used = self.gas_used_after(gas_left);
        match outcome {
            GuestOutcome::Trapped(e) => self.fail(e, input_action, used),
            GuestOutcome::Returned(first) => {
                let output = read_output(m, first);
                self.complete_call(input_action, output, used, promises)
            },
        }
    }
}

/// How the guest's export ended.
pub enum GuestOutcome {
    /// It returned; the first value it returned, if any, widened to 64 bits.
    Returned(Option<i64>),
    /// It trapped with this error.
    Trapped(VmError),
}

/// Copies bytes into a vector.
fn copy_slice(b: &[u8]) -> (r: Vec<u8>)
    ensures
        r@ == b@,
{
    let mut out: Vec<u8> = Vec::new();
    crate::codec::put_raw(&mut out, b);
    assert(out@ =~= b@);
    out
}

/// The gas that a refused frame has used: the base cost, but never more
/// than the frame's limit.
pub open spec fn base_charge(limit: u64, base: u64) -> u64 {
    if base >= limit {
        limit
    } else {
        base
    }
}

/// Why a method may not be called directly.
pub open spec fn method_error(method: Seq<char>) -> Seq<char> {
    if method == "deploy"@ {
        "direct call to deploy is forbidden"@
    } else {
        "direct call to promise callback is forbidden"@
    }
}

/// A method may be called directly: it is not `deploy`, and a name that
/// starts with an underscore is kept for callbacks.
pub open spec fn method_allowed(method: Seq<char>, is_callback: bool) -> bool {
    &&& method != "deploy"@
    &&& (is_callback || method.len() == 0 || method[0] != '_')
}

/// Refuses `deploy`, and methods that start with an underscore outside a
/// callback.
pub fn check_method(method: &str, is_callback: bool) -> (r: VmResult<()>)
    ensures
        r is Ok <==> method_allowed(method@, is_callback),
        r matches Err(e) ==> e is Custom && e->Custom_msg@ == method_error(method@),
{
    let name = String::from_str(method);
    let deploy = String::from_str("deploy");
    if name == deploy {
        return Err(VmError::custom("direct call to deploy is forbidden"));
    }
    if !is_callback && method.unicode_len() > 0 && method.get_char(0) == '_' {
        return Err(VmError::custom("direct call to promise callback is forbidden"));
    }
    Ok(())
}

/// The pointer that the first returned value stands for: its low 32 bits as
/// a signed number.
pub open spec fn return_pointer(v: i64) -> i32 {
    v as i32
}

/// The output of a call: the region that a positive returned pointer names,
/// if it can be read; nothing otherwise.
pub open spec fn output_of(m: Seq<u8>, first: Option<i64>) -> Seq<u8> {
    match first {
        Some(v) => if return_pointer(v) > 0 {
            match region_contents(m, return_pointer(v) as u32, MAX_RETURN_VALUE_SIZE) {
                Some(d) => d,
                None => Seq::empty(),
            }
        } else {
            Seq::empty()
        },
        None => Seq::empty(),
    }
}

/// A call that returns a pointer that is not positive has no output.
pub proof fn lemma_null_pointer_no_output(m: Seq<u8>, v: i64)
    requires
        return_pointer(v) <= 0,
    ensures
        output_of(m, Some(v)).len() == 0,
{
}

/// Reads the output of a call that returned `first`.
pub fn read_output(m: &[u8], first: Option<i64>) -> (r: Vec<u8>)
    ensures
        r@ == output_of(m@, first),
{
    match first {
        Some(v) => {
            let ptr = v as i32;
            if ptr > 0 {
                match read_region(m, ptr as u32, MAX_RETURN_VALUE_SIZE) {
                    Ok(d) => d,
                    Err(_) => Vec::new(),
                }
            } else {
                Vec::new()
            }
        },
        None => Vec::new(),
    }
}

/// The error of a guest trap: `OutOfGas` when metering ran out; the error of
/// the host function that trapped, if one did; else the trap's own message.
pub fn classify_trap(points_exhausted: bool, host_error: Option<VmError>, message: String) -> (r: VmError)
    ensures
        points_exhausted ==> r == VmError::OutOfGas,
        !points_exhausted ==> match host_error {
            Some(e) => r == e,
            None => r == (VmError::WasmExecutionErr { msg: message }),
        },
{
    if points_exhausted {
        VmError::out_of_gas()
    } else {
        match host_error {
            Some(e) => e,
            None => VmError::wasm_err(message),
        }
    }
}

/// Some export is named `name`.
pub open spec fn exported(exports: Seq<String>, name: Seq<char>) -> bool {
    exists|i: int| 0 <= i < exports.len() && exports[i]@ == name
}

/// Checks that a module exports what a deploy needs; the error names the
/// first of `allocate`, `deploy` and `memory` that is missing.
pub fn check_required_exports(exports: &Vec<String>) -> (r: VmResult<()>)
    ensures
        r is Ok <==> exported(exports@, "allocate"@) && exported(exports@, "deploy"@) && exported(
            exports@,
            "memory"@,
        ),
        r matches Err(e) ==> e is Custom && e->Custom_msg@ == if !exported(exports@, "allocate"@) {
            "not found required export: allocate"@
        } else if !exported(exports@, "deploy"@) {
            "not found required export: deploy"@
        } else {
            "not found required export: memory"@
        },
{
    let allocate = String::from_str("allocate");
    let deploy = String::from_str("deploy");
    let memory = String::from_str("memory");
    if !has_export(exports, &allocate) {
        return Err(VmError::custom("not found required export: allocate"));
    }
    if !has_export(exports, &deploy) {
        return Err(VmError::custom("not found required export: deploy"));
    }
    if !has_export(exports, &memory) {
        return Err(VmError::custom("not found required export: memory"));
    }
    Ok(())
}

fn has_export(exports: &Vec<String>, name: &String) -> (r: bool)
    ensures
        r <==> exists|i: int| 0 <= i < exports@.len() && exports@[i]@ == name@,
{
    let mut i: usize = 0;
    while i < exports.len()
        invariant
            i <= exports@.len(),
            forall|j: int| 0 <= j < i ==> exports@[j]@ != name@,
        decreases exports@.len() - i,
    {
        if exports[i] == *name {
            return true;
        }
        i = i + 1;
    }
    false
}

/// `call_start` grows with the index.
pub proof fn lemma_call_start_mono(ps: Seq<Promise>, nodes: Seq<ActionResult>, j: int, i: int)
    requires
        0 <= j <= i,
    ensures
        call_start(ps, nodes, j) <= call_start(ps, nodes, i),
    decreases i - j,
{
    if j < i {
        lemma_call_start_mono(ps, nodes, j, i - 1);
    }
}

/// Where the requests of the first `i` promises end depends only on their
/// own nodes.
pub proof fn lemma_call_start_frame(ps: Seq<Promise>, n1: Seq<ActionResult>, n2: Seq<ActionResult>, i: int)
    requires
        0 <= i,
        group_start(ps, i) <= n1.len(),
        group_start(ps, i) <= n2.len(),
        forall|k: int| 0 <= k < group_start(ps, i) ==> n1[k] == n2[k],
    ensures
        call_start(ps, n1, i) == call_start(ps, n2, i),
    decreases i,
{
    if i > 0 {
        lemma_call_start_frame(ps, n1, n2, i - 1);
        let g = group_start(ps, i - 1) as int;
        if group_size(ps[i - 1]) > 0 {
            assert(n1[g] == n2[g]);
        }
        if group_size(ps[i - 1]) > 1 {
            assert(n1[g + 1] == n2[g + 1]);
        }
    }
}

/// What a drained promise says depends only on its own nodes and requests.
pub proof fn lemma_drained_frame(
    p: Promise,
    n1: Seq<ActionResult>,
    n2: Seq<ActionResult>,
    g: int,
    c1: Seq<HostCall>,
    c2: Seq<HostCall>,
    c: int,
    own: Seq<u8>,
)
    requires
        promise_drained(p, n1, g, c1, c, own),
        0 <= g,
        g + group_size(p) <= n1.len() <= n2.len(),
        0 <= c,
        c + calls_of(p, n1, g) <= c1.len() <= c2.len(),
        forall|k: int| 0 <= k < n1.len() ==> n2[k] == n1[k],
        forall|k: int| 0 <= k < c1.len() ==> c2[k] == c1[k],
    ensures
        promise_drained(p, n2, g, c2, c, own),
{
    if group_size(p) > 0 {
        assert(n2[g] == n1[g]);
    }
    if group_size(p) > 1 {
        assert(n2[g + 1] == n1[g + 1]);
    }
    assert forall|k: int| c <= k < c + calls_of(p, n1, g) implies c2[k] == c1[k] by {}
}

/// Promise results with the same values are handed over as the same bytes.
pub proof fn lemma_outcome_bytes(a: PromiseResult, b: PromiseResult)
    requires
        same_promise_result(a, b),
    ensures
        context_bytes(InvocationContext { is_callback: true, promise_result: Some(a) }) == context_bytes(
            InvocationContext { is_callback: true, promise_result: Some(b) },
        ),
{
}

/// `group_start` grows with the index.
pub proof fn lemma_group_start_mono(ps: Seq<Promise>, j: int, i: int)
    requires
        0 <= j <= i,
    ensures
        group_start(ps, j) <= group_start(ps, i),
    decreases i - j,
{
    if j < i {
        lemma_group_start_mono(ps, j, i - 1);
    }
}

} // verus!
