//! A host kept in memory, for tests: storage, a balance, and a log of what the
//! engine asked of it. Calls and deploys of other contracts are answered from
//! a list of prepared results.
use vstd::prelude::*;

use crate::backend::{simple_request, Backend, BackendError, BackendResult, HostCall};
use crate::types::{copy_bytes, ActionResult, Address, IDNA};

verus! {

pub struct MockBackend {
    pub storage: Vec<(Vec<u8>, Vec<u8>)>,
    pub balance: u64,
    pub address: Address,
    pub remaining_gas: u64,
    /// The gas that every primitive charges.
    pub cost: u64,
    /// Answers to `call` and `deploy`, used first to last.
    pub responses: Vec<ActionResult>,
    /// The address, method and invocation context of each `call`.
    pub calls: Vec<(Address, Vec<u8>, Vec<u8>)>,
    /// The receiver and amount of each `add_balance`.
    pub credits: Vec<(Address, IDNA)>,
    pub commits: u64,
    pub events: Vec<(Vec<u8>, Vec<u8>)>,
    /// The requests that the engine made, as `Backend::requests` has them.
    pub history: Ghost<Seq<HostCall>>,
}

/// The big-endian value of some bytes.
pub open spec fn be_value(s: Seq<u8>) -> nat
    decreases s.len(),
{
    if s.len() == 0 {
        0
    } else {
        be_value(s.drop_last()) * 256 + s.last() as nat
    }
}

/// The value of a big-endian amount, if it fits in 64 bits.
pub fn amount_value(a: &[u8]) -> (r: Option<u64>)
    ensures
        match r {
            Some(v) => v as nat == be_value(a@),
            None => be_value(a@) > u64::MAX,
        },
{
    let mut acc: u64 = 0;
    let mut i: usize = 0;
    while i < a.len()
        invariant
            i <= a@.len(),
            acc as nat == be_value(a@.take(i as int)),
        decreases a@.len() - i,
    {
        assert(a@.take(i + 1).drop_last() =~= a@.take(i as int));
        if acc > (u64::MAX - a[i] as u64) / 256 {
            proof {
                lemma_be_value_grows(a@, (i + 1) as int);
            }
            return None;
        }
        acc = acc * 256 + a[i] as u64;
        i = i + 1;
    }
    assert(a@.take(i as int) =~= a@);
    Some(acc)
}

/// Once a prefix is too large, the whole value is too.
proof fn lemma_be_value_grows(s: Seq<u8>, i: int)
    requires
        0 < i <= s.len(),
        be_value(s.take(i - 1)) * 256 + s[i - 1] as nat > u64::MAX,
    ensures
        be_value(s) > u64::MAX,
    decreases s.len() - i,
{
    assert(s.take(i).drop_last() =~= s.take(i - 1));
    if i == s.len() {
        assert(s.take(i) =~= s);
    } else {
        assert(s.take(i + 1).drop_last() =~= s.take(i));
        assert(be_value(s.take(i)) * 256 + s[i] as nat >= be_value(s.take(i)) * 256);
        lemma_be_value_grows(s, i + 1);
    }
}

/// The eight big-endian bytes of a value.
fn be_bytes(x: u64) -> (r: Vec<u8>)
    ensures
        r@.len() == 8,
{
    let mut out: Vec<u8> = Vec::new();
    let mut k: u64 = 8;
    while k > 0
        invariant
            k <= 8,
            out@.len() == 8 - k,
        decreases k,
    {
        k = k - 1;
        out.push(((x >> (8 * k)) & 255) as u8);
    }
    out
}

impl MockBackend {
    pub fn new() -> (r: MockBackend)
        ensures
            r.storage@.len() == 0,
            r.responses@.len() == 0,
            r.calls@.len() == 0,
            r.credits@.len() == 0,
            r.events@.len() == 0,
            r.commits == 0,
            r.balance == 0,
            r.cost == 0,
            r.history@.len() == 0,
    {
        MockBackend {
            storage: Vec::new(),
            balance: 0,
            address: Vec::new(),
            remaining_gas: 0,
            cost: 0,
            responses: Vec::new(),
            calls: Vec::new(),
            credits: Vec::new(),
            commits: 0,
            events: Vec::new(),
            history: Ghost(Seq::empty()),
        }
    }

    /// The position of `key` in the storage.
    pub fn find_key(&self, key: &[u8]) -> (r: Option<usize>)
        ensures
            match r {
                Some(i) => i < self.storage@.len() && self.storage@[i as int].0@ == key@,
                None => forall|i: int| 0 <= i < self.storage@.len() ==> self.storage@[i].0@ != key@,
            },
    {
        let mut i: usize = 0;
        while i < self.storage.len()
            invariant
                i <= self.storage@.len(),
                forall|j: int| 0 <= j < i ==> self.storage@[j].0@ != key@,
            decreases self.storage@.len() - i,
        {
            if bytes_equal(self.storage[i].0.as_slice(), key) {
                return Some(i);
            }
            i = i + 1;
        }
        None
    }

    /// The stored value of `key`.
    pub fn lookup(&self, key: &[u8]) -> (r: Option<Vec<u8>>)
        ensures
            match r {
                Some(v) => exists|i: int|
                    0 <= i < self.storage@.len() && self.storage@[i].0@ == key@
                        && self.storage@[i].1@ == v@,
                None => forall|i: int| 0 <= i < self.storage@.len() ==> self.storage@[i].0@ != key@,
            },
    {
        match self.find_key(key) {
            Some(i) => Some(copy_bytes(&self.storage[i].1)),
            None => None,
        }
    }

    /// The next prepared answer to a call or a deploy.
    fn next_response(&mut self) -> (r: Result<ActionResult, BackendError>)
        ensures
            old(self).responses@.len() > 0 ==> r is Ok && r->Ok_0 == old(self).responses@[0]
                && final(self).responses@ == old(self).responses@.drop_first(),
            old(self).responses@.len() == 0 ==> r is Err && final(self).responses@ == old(
                self,
            ).responses@,
            final(self).history == old(self).history,
    {
        if self.responses.len() == 0 {
            Err(BackendError::new("contract is not found"))
        } else {
            let r = self.responses.remove(0);
            assert(self.responses@ =~= old(self).responses@.drop_first());
            Ok(r)
        }
    }

    /// Takes `amount` out of the balance, if it covers it.
    pub fn take_amount(&mut self, amount: &[u8]) -> (r: Result<(), BackendError>)
        ensures
            r is Ok <==> be_value(amount@) <= old(self).balance,
            r is Ok ==> final(self).balance == old(self).balance - be_value(amount@),
            r is Err ==> final(self).balance == old(self).balance,
            final(self).history == old(self).history,
    {
        match amount_value(amount) {
            Some(v) => if v <= self.balance {
                self.balance = self.balance - v;
                Ok(())
            } else {
                Err(BackendError::new("insufficient balance"))
            },
            None => Err(BackendError::new("insufficient balance")),
        }
    }
}

/// Two byte strings are equal.
fn bytes_equal(a: &[u8], b: &[u8]) -> (r: bool)
    ensures
        r <==> a@ == b@,
{
    if a.len() != b.len() {
        return false;
    }
    let mut i: usize = 0;
    while i < a.len()
        invariant
            a@.len() == b@.len(),
            i <= a@.len(),
            forall|j: int| 0 <= j < i ==> a@[j] == b@[j],
        decreases a@.len() - i,
    {
        if a[i] != b[i] {
            return false;
        }
        i = i + 1;
    }
    assert(a@ =~= b@);
    true
}

impl Backend for MockBackend {
    open spec fn requests(&self) -> Seq<HostCall> {
        self.history@
    }

    fn set_remaining_gas(&mut self, gas_limit: u64) -> BackendResult<()> {
        self.remaining_gas = gas_limit;
        (Ok(()), 0)
    }

    fn set_storage(&mut self, key: Vec<u8>, value: Vec<u8>) -> BackendResult<()> {
        match self.find_key(key.as_slice()) {
            Some(i) => {
                self.storage.set(i, (key, value));
            },
            None => {
                self.storage.push((key, value));
            },
        }
        (Ok(()), self.cost)
    }

    fn get_storage(&mut self, key: Vec<u8>) -> BackendResult<Option<Vec<u8>>> {
        (Ok(self.lookup(key.as_slice())), self.cost)
    }

    fn remove_storage(&mut self, key: Vec<u8>) -> BackendResult<()> {
        match self.find_key(key.as_slice()) {
            Some(i) => {
                self.storage.remove(i);
            },
            None => {},
        }
        (Ok(()), self.cost)
    }

    fn block_timestamp(&mut self) -> BackendResult<i64> {
        (Ok(0), self.cost)
    }

    fn block_number(&mut self) -> BackendResult<u64> {
        (Ok(0), self.cost)
    }

    fn min_fee_per_gas(&mut self) -> BackendResult<IDNA> {
        (Ok(Vec::new()), self.cost)
    }

    fn balance(&mut self) -> BackendResult<IDNA> {
        (Ok(be_bytes(self.balance)), self.cost)
    }

    fn block_seed(&mut self) -> BackendResult<Vec<u8>> {
        (Ok(Vec::new()), self.cost)
    }

    fn network_size(&mut self) -> BackendResult<u64> {
        (Ok(0), self.cost)
    }

    fn identity_state(&mut self, addr: Address) -> BackendResult<u8> {
        (Ok(0), self.cost)
    }

    fn pub_key(&mut self, addr: Address) -> BackendResult<Vec<u8>> {
        (Ok(Vec::new()), self.cost)
    }

    fn burn_all(&mut self) -> BackendResult<()> {
        self.balance = 0;
        (Ok(()), self.cost)
    }

    fn burn(&mut self, amount: IDNA) -> BackendResult<()> {
        (self.take_amount(amount.as_slice()), self.cost)
    }

    fn read_contract_data(&mut self, addr: Address, key: Vec<u8>) -> BackendResult<Option<Vec<u8>>> {
        (Ok(self.lookup(key.as_slice())), self.cost)
    }

    fn epoch(&mut self) -> BackendResult<u16> {
        (Ok(0), self.cost)
    }

    fn delegatee(&mut self, addr: Address) -> BackendResult<Option<Address>> {
        (Ok(None), self.cost)
    }

    fn identity(&mut self, addr: Address) -> BackendResult<Option<Vec<u8>>> {
        (Ok(None), self.cost)
    }

    fn call(
        &mut self,
        addr: Address,
        method: &[u8],
        args: &[u8],
        amount: &[u8],
        gas_limit: u64,
        invocation_ctx: &[u8],
    ) -> BackendResult<ActionResult> {
        let mut m: Vec<u8> = Vec::new();
        crate::codec::put_raw(&mut m, method);
        let mut c: Vec<u8> = Vec::new();
        crate::codec::put_raw(&mut c, invocation_ctx);
        let ghost a = addr@;
        self.calls.push((addr, m, c));
        let res = self.next_response();
        proof {
            self.history@ = self.history@.push(
                HostCall {
                    kind: 0,
                    addr: a,
                    method: method@,
                    args: args@,
                    amount: amount@,
                    gas_limit,
                    ctx: invocation_ctx@,
                    code: Seq::empty(),
                    nonce: Seq::empty(),
                    reply: res,
                    credited: Ok(()),
                    gas: self.cost,
                },
            );
        }
        (res, self.cost)
    }

    fn caller(&mut self) -> BackendResult<Vec<u8>> {
        (Ok(vec![1u8, 2u8, 3u8]), 10)
    }

    fn original_caller(&mut self) -> BackendResult<Vec<u8>> {
        (Ok(vec![1u8, 2u8, 3u8]), 10)
    }

    fn commit(&mut self) -> BackendResult<()> {
        if self.commits < u64::MAX {
            self.commits = self.commits + 1;
        }
        proof {
            self.history@ = self.history@.push(simple_request(3, Seq::empty(), Seq::empty(), Ok(()), 0));
        }
        (Ok(()), 0)
    }

    fn deduct_balance(&mut self, amount: IDNA) -> BackendResult<()> {
        let res = self.take_amount(amount.as_slice());
        proof {
            self.history@ = self.history@.push(simple_request(4, Seq::empty(), amount@, res, self.cost));
        }
        (res, self.cost)
    }

    fn add_balance(&mut self, to: Address, amount: IDNA) -> BackendResult<()> {
        let ghost t = to@;
        let ghost a = amount@;
        self.credits.push((to, amount));
        proof {
            self.history@ = self.history@.push(simple_request(2, t, a, Ok(()), self.cost));
        }
        (Ok(()), self.cost)
    }

    fn own_addr(&mut self) -> BackendResult<Address> {
        (Ok(copy_bytes(&self.address)), self.cost)
    }

    fn contract_code(&mut self, contract: Address) -> BackendResult<Vec<u8>> {
        (Ok(Vec::new()), self.cost)
    }

    fn contract_addr(&mut self, code: &[u8], args: &[u8], nonce: &[u8]) -> BackendResult<Address> {
        (Ok(vec![0u8; 20]), self.cost)
    }

    fn deploy(
        &mut self,
        code: &[u8],
        args: &[u8],
        nonce: &[u8],
        amount: &[u8],
        gas_limit: u64,
    ) -> BackendResult<ActionResult> {
        let res = self.next_response();
        proof {
            self.history@ = self.history@.push(
                HostCall {
                    kind: 1,
                    addr: Seq::empty(),
                    method: Seq::empty(),
                    args: args@,
                    amount: amount@,
                    gas_limit,
                    ctx: Seq::empty(),
                    code: code@,
                    nonce: nonce@,
                    reply: res,
                    credited: Ok(()),
                    gas: self.cost,
                },
            );
        }
        (res, self.cost)
    }

    fn contract_addr_by_hash(&mut self, hash: &[u8], args: &[u8], nonce: &[u8]) -> BackendResult<
        Address,
    > {
        (Ok(vec![0u8; 20]), self.cost)
    }

    fn own_code(&mut self) -> BackendResult<Vec<u8>> {
        (Ok(Vec::new()), self.cost)
    }

    fn code_hash(&mut self) -> BackendResult<Vec<u8>> {
        (Ok(Vec::new()), self.cost)
    }

    fn event(&mut self, event_name: &[u8], args: &[u8]) -> BackendResult<()> {
        let mut n: Vec<u8> = Vec::new();
        crate::codec::put_raw(&mut n, event_name);
        let mut a: Vec<u8> = Vec::new();
        crate::codec::put_raw(&mut a, args);
        self.events.push((n, a));
        (Ok(()), self.cost)
    }

    fn pay_amount(&mut self) -> BackendResult<IDNA> {
        (Ok(Vec::new()), self.cost)
    }

    fn block_header(&mut self, height: u64) -> BackendResult<Option<Vec<u8>>> {
        (Ok(None), self.cost)
    }

    fn keccak256(&mut self, data: &[u8]) -> BackendResult<Vec<u8>> {
        (Err(BackendError::new("keccak256 is not available in memory")), self.cost)
    }

    fn global_state(&mut self) -> BackendResult<Vec<u8>> {
        (Ok(Vec::new()), self.cost)
    }
}

} // verus!
