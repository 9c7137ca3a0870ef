use vstd::prelude::*;

verus! {

pub const ACTION_FUNCTION_CALL: u8 = 1;
pub const ACTION_TRANSFER: u8 = 2;
pub const ACTION_DEPLOY_CONTRACT: u8 = 3;
pub const ACTION_READ_CONTRACT_DATA: u8 = 4;
pub const ACTION_READ_IDENTITY: u8 = 5;

/// An amount of coins: a big-endian non-negative integer of any width.
pub type IDNA = Vec<u8>;

/// Opaque bytes that name a contract or an account.
pub type Address = Vec<u8>;

pub type Hash = [u8; 32];

pub type Gas = u64;

/// A deferred effect.
#[derive(Clone, Debug)]
pub enum Action {
    Unset,
    DeployContract(DeployContractAction),
    FunctionCall(FunctionCallAction),
    ReadShardedData(ReadShardedDataAction),
    Transfer(TransferAction),
}

#[derive(Clone, Debug)]
pub struct FunctionCallAction {
    pub method_name: String,
    pub args: Vec<u8>,
    pub gas_limit: Gas,
    pub deposit: IDNA,
}

#[derive(Clone, Debug)]
pub struct DeployContractAction {
    pub code: Vec<u8>,
    pub nonce: Vec<u8>,
    pub args: Vec<u8>,
    pub gas_limit: Gas,
    pub deposit: IDNA,
}

#[derive(Clone, Debug)]
pub struct TransferAction {
    pub amount: IDNA,
}

#[derive(Clone, Debug)]
pub struct ReadContractDataAction {
    pub gas_limit: u64,
    pub key: Vec<u8>,
}

#[derive(Clone, Debug)]
pub struct GetIdentityAction {
    pub gas_limit: u64,
    pub addr: Vec<u8>,
}

#[derive(Clone, Debug)]
pub enum ReadShardedDataAction {
    ReadContractData(ReadContractDataAction),
    GetIdentity(GetIdentityAction),
}

/// One node of the result tree.
#[derive(Debug)]
pub struct ActionResult {
    pub input_action: Action,
    pub gas_used: Gas,
    pub remaining_gas: Gas,
    pub success: bool,
    pub error: String,
    pub output_data: Vec<u8>,
    pub sub_action_results: Vec<ActionResult>,
    pub contract: Address,
}

/// The outcome of a promise, handed to its callback.
#[derive(Clone, Debug)]
pub enum PromiseResult {
    Empty,
    Value(Vec<u8>),
    Failed,
}

/// A scheduled cross-contract effect, with an optional callback.
#[derive(Clone, Debug)]
pub struct Promise {
    pub predecessor_id: Address,
    pub receiver_id: Address,
    pub action: Action,
    pub action_callback: Option<Action>,
}

#[derive(Clone, Debug)]
pub struct InvocationContext {
    pub is_callback: bool,
    pub promise_result: Option<PromiseResult>,
}

pub open spec fn same_function_call(a: FunctionCallAction, b: FunctionCallAction) -> bool {
    &&& a.method_name@ == b.method_name@
    &&& a.args@ == b.args@
    &&& a.gas_limit == b.gas_limit
    &&& a.deposit@ == b.deposit@
}

pub open spec fn same_deploy(a: DeployContractAction, b: DeployContractAction) -> bool {
    &&& a.code@ == b.code@
    &&& a.nonce@ == b.nonce@
    &&& a.args@ == b.args@
    &&& a.gas_limit == b.gas_limit
    &&& a.deposit@ == b.deposit@
}

pub open spec fn same_read(a: ReadShardedDataAction, b: ReadShardedDataAction) -> bool {
    match (a, b) {
        (ReadShardedDataAction::ReadContractData(x), ReadShardedDataAction::ReadContractData(y)) =>
            x.gas_limit == y.gas_limit && x.key@ == y.key@,
        (ReadShardedDataAction::GetIdentity(x), ReadShardedDataAction::GetIdentity(y)) =>
            x.gas_limit == y.gas_limit && x.addr@ == y.addr@,
        _ => false,
    }
}

/// Two actions carry the same values.
pub open spec fn same_action(a: Action, b: Action) -> bool {
    match (a, b) {
        (Action::Unset, Action::Unset) => true,
        (Action::DeployContract(x), Action::DeployContract(y)) => same_deploy(x, y),
        (Action::FunctionCall(x), Action::FunctionCall(y)) => same_function_call(x, y),
        (Action::ReadShardedData(x), Action::ReadShardedData(y)) => same_read(x, y),
        (Action::Transfer(x), Action::Transfer(y)) => x.amount@ == y.amount@,
        _ => false,
    }
}

pub open spec fn same_promise_result(a: PromiseResult, b: PromiseResult) -> bool {
    match (a, b) {
        (PromiseResult::Empty, PromiseResult::Empty) => true,
        (PromiseResult::Failed, PromiseResult::Failed) => true,
        (PromiseResult::Value(x), PromiseResult::Value(y)) => x@ == y@,
        _ => false,
    }
}

pub open spec fn same_opt_promise_result(a: Option<PromiseResult>, b: Option<PromiseResult>) -> bool {
    match (a, b) {
        (None, None) => true,
        (Some(x), Some(y)) => same_promise_result(x, y),
        _ => false,
    }
}

/// Two result trees carry the same values, node by node.
pub open spec fn same_result(a: ActionResult, b: ActionResult) -> bool
    decreases a, a.sub_action_results@.len() + 1,
{
    &&& same_action(a.input_action, b.input_action)
    &&& a.gas_used == b.gas_used
    &&& a.remaining_gas == b.remaining_gas
    &&& a.success == b.success
    &&& a.error@ == b.error@
    &&& a.output_data@ == b.output_data@
    &&& a.contract@ == b.contract@
    &&& a.sub_action_results@.len() == b.sub_action_results@.len()
    &&& same_children(a, b, a.sub_action_results@.len() as int)
}

/// The first `i` children of two nodes carry the same values.
pub open spec fn same_children(a: ActionResult, b: ActionResult, i: int) -> bool
    decreases a, i,
{
    if i <= 0 || i > a.sub_action_results@.len() || i > b.sub_action_results@.len() {
        true
    } else {
        same_children(a, b, i - 1) && same_result(
            a.sub_action_results@[i - 1],
            b.sub_action_results@[i - 1],
        )
    }
}

/// Children that carry the same values one by one carry the same values.
pub proof fn lemma_same_children(a: ActionResult, b: ActionResult, i: int)
    requires
        0 <= i <= a.sub_action_results@.len(),
        i <= b.sub_action_results@.len(),
        forall|j: int| 0 <= j < i ==> same_result(a.sub_action_results@[j], b.sub_action_results@[j]),
    ensures
        same_children(a, b, i),
    decreases i,
{
    if i > 0 {
        lemma_same_children(a, b, i - 1);
    }
}

/// The children of nodes with the same values have the same values.
pub proof fn lemma_same_child(a: ActionResult, b: ActionResult, i: int, n: int)
    requires
        same_children(a, b, n),
        0 <= i < n <= a.sub_action_results@.len(),
        n <= b.sub_action_results@.len(),
    ensures
        same_result(a.sub_action_results@[i], b.sub_action_results@[i]),
    decreases n,
{
    if i < n - 1 {
        lemma_same_child(a, b, i, n - 1);
    }
}

/// Gas left of a limit once `used` is spent; zero when `used` exceeds it.
pub open spec fn gas_left_of(limit: u64, used: u64) -> u64 {
    if used >= limit {
        0
    } else {
        (limit - used) as u64
    }
}

/// The gas bookkeeping of a node that ran under `limit`.
pub open spec fn gas_consistent(r: ActionResult, limit: u64) -> bool {
    &&& r.gas_used <= limit
    &&& r.remaining_gas == limit - r.gas_used
}

/// The shape of a failed node.
pub open spec fn failed_node(r: ActionResult) -> bool {
    &&& !r.success
    &&& r.error@.len() > 0
    &&& r.output_data@.len() == 0
}

/// The result that a callback sees of a finished node.
pub open spec fn outcome_of(r: ActionResult) -> PromiseResult {
    if !r.success {
        PromiseResult::Failed
    } else if r.output_data@.len() == 0 {
        PromiseResult::Empty
    } else {
        PromiseResult::Value(r.output_data)
    }
}

pub fn copy_bytes(v: &Vec<u8>) -> (r: Vec<u8>)
    ensures
        r@ == v@,
{
    let r = v.clone();
    assert(r@ =~= v@);
    r
}

pub fn copy_string(s: &String) -> (r: String)
    ensures
        r@ == s@,
{
    s.clone()
}

impl FunctionCallAction {
    pub fn duplicate(&self) -> (r: FunctionCallAction)
        ensures
            same_function_call(r, *self),
    {
        FunctionCallAction {
            method_name: copy_string(&self.method_name),
            args: copy_bytes(&self.args),
            gas_limit: self.gas_limit,
            deposit: copy_bytes(&self.deposit),
        }
    }
}

impl Action {
    pub fn duplicate(&self) -> (r: Action)
        ensures
            same_action(r, *self),
    {
        match self {
            Action::Unset => Action::Unset,
            Action::DeployContract(d) => Action::DeployContract(
                DeployContractAction {
                    code: copy_bytes(&d.code),
                    nonce: copy_bytes(&d.nonce),
                    args: copy_bytes(&d.args),
                    gas_limit: d.gas_limit,
                    deposit: copy_bytes(&d.deposit),
                },
            ),
            Action::FunctionCall(c) => Action::FunctionCall(c.duplicate()),
            Action::ReadShardedData(ReadShardedDataAction::ReadContractData(r)) => {
                Action::ReadShardedData(
                    ReadShardedDataAction::ReadContractData(
                        ReadContractDataAction { gas_limit: r.gas_limit, key: copy_bytes(&r.key) },
                    ),
                )
            },
            Action::ReadShardedData(ReadShardedDataAction::GetIdentity(r)) => {
                Action::ReadShardedData(
                    ReadShardedDataAction::GetIdentity(
                        GetIdentityAction { gas_limit: r.gas_limit, addr: copy_bytes(&r.addr) },
                    ),
                )
            },
            Action::Transfer(t) => Action::Transfer(TransferAction { amount: copy_bytes(&t.amount) }),
        }
    }
}

impl PromiseResult {
    pub fn duplicate(&self) -> (r: PromiseResult)
        ensures
            same_promise_result(r, *self),
    {
        match self {
            PromiseResult::Empty => PromiseResult::Empty,
            PromiseResult::Value(v) => PromiseResult::Value(copy_bytes(v)),
            PromiseResult::Failed => PromiseResult::Failed,
        }
    }
}

impl ActionResult {
    /// Appends `results`, in order, to the children of this node.
    pub fn append_sub_action_results(&mut self, results: Vec<ActionResult>)
        ensures
            final(self).sub_action_results@ == old(self).sub_action_results@ + results@,
            final(self).input_action == old(self).input_action,
            final(self).gas_used == old(self).gas_used,
            final(self).remaining_gas == old(self).remaining_gas,
            final(self).success == old(self).success,
            final(self).error == old(self).error,
            final(self).output_data == old(self).output_data,
            final(self).contract == old(self).contract,
    {
        let mut results = results;
        self.sub_action_results.append(&mut results);
    }
}

impl InvocationContext {
    /// A plain, non-callback context.
    pub fn new() -> (r: InvocationContext)
        ensures
            !r.is_callback,
            r.promise_result is None,
    {
        InvocationContext { is_callback: false, promise_result: None }
    }
}

} // verus!
