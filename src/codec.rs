//! The wire forms of the engine's records. They are this library's own
//! formats, not the protobuf messages that a node may expect. Integers are
//! little-endian;
//! byte strings and texts are framed by their length as a 64-bit word. A
//! result node holds its action, its gas, success, error text, output,
//! contract, and then its children in order.
use vstd::prelude::*;
use vstd::string::*;
use vstd::utf8::*;

use crate::adapters::text_from_utf8;
use crate::memory::{le32, le32_bytes, lemma_le32_bytes};
use crate::types::{
    lemma_same_child, lemma_same_children, same_action, same_opt_promise_result, same_result, Action,
    ActionResult, DeployContractAction, FunctionCallAction, GetIdentityAction, InvocationContext,
    PromiseResult, ReadContractDataAction, ReadShardedDataAction, TransferAction,
};

verus! {

/// Appends the little-endian bytes of `x`.
pub fn put_u32(out: &mut Vec<u8>, x: u32)
    ensures
        final(out)@ == old(out)@ + le32_bytes(x),
{
    out.push((x % 256) as u8);
    out.push(((x / 256) % 256) as u8);
    out.push(((x / 65536) % 256) as u8);
    out.push((x / 16777216) as u8);
    assert(final(out)@ =~= old(out)@ + le32_bytes(x));
}

/// Appends bytes.
pub fn put_raw(out: &mut Vec<u8>, s: &[u8])
    ensures
        final(out)@ == old(out)@ + s@,
{
    let ghost o = out@;
    let mut i: usize = 0;
    while i < s.len()
        invariant
            i <= s@.len(),
            out@ == o + s@.subrange(0, i as int),
        decreases s@.len() - i,
    {
        out.push(s[i]);
        i = i + 1;
        assert(out@ =~= o + s@.subrange(0, i as int));
    }
    assert(s@.subrange(0, s@.len() as int) =~= s@);
}

/// The encoding of an optional promise result: a tag byte (0 absent,
/// 1 failed, 2 empty, 3 value) and, for a value, its framed bytes.
pub open spec fn promise_result_bytes(p: Option<PromiseResult>) -> Seq<u8> {
    match p {
        None => seq![0u8],
        Some(PromiseResult::Failed) => seq![1u8],
        Some(PromiseResult::Empty) => seq![2u8],
        Some(PromiseResult::Value(v)) => seq![3u8] + framed64(v@),
    }
}

/// The encoding of an invocation context: the callback flag as one byte,
/// then the promise result.
pub open spec fn context_bytes(c: InvocationContext) -> Seq<u8> {
    seq![if c.is_callback { 1u8 } else { 0u8 }] + promise_result_bytes(c.promise_result)
}

/// Encodes an invocation context.
pub fn encode_invocation_context(c: &InvocationContext) -> (r: Vec<u8>)
    ensures
        r@ == context_bytes(*c),
{
    let mut out: Vec<u8> = Vec::new();
    out.push(if c.is_callback { 1u8 } else { 0u8 });
    match &c.promise_result {
        None => out.push(0u8),
        Some(PromiseResult::Failed) => out.push(1u8),
        Some(PromiseResult::Empty) => out.push(2u8),
        Some(PromiseResult::Value(v)) => {
            out.push(3u8);
            put_framed64(&mut out, v.as_slice());
        },
    }
    assert(out@ =~= context_bytes(*c));
    out
}

/// The eight little-endian bytes of `x`.
pub open spec fn le64_bytes(x: u64) -> Seq<u8> {
    le32_bytes((x % 0x1_0000_0000) as u32) + le32_bytes((x / 0x1_0000_0000) as u32)
}

/// Bytes with their length in front, as a little-endian 64-bit word.
pub open spec fn framed64(s: Seq<u8>) -> Seq<u8> {
    le64_bytes(s.len() as u64) + s
}

/// The kind byte of an action.
pub open spec fn action_kind(a: Action) -> u8 {
    match a {
        Action::Unset => 0,
        Action::FunctionCall(_) => 1,
        Action::Transfer(_) => 2,
        Action::DeployContract(_) => 3,
        Action::ReadShardedData(ReadShardedDataAction::ReadContractData(_)) => 4,
        Action::ReadShardedData(ReadShardedDataAction::GetIdentity(_)) => 5,
    }
}

/// The method of a call; empty for other actions.
pub open spec fn action_method(a: Action) -> Seq<char> {
    match a {
        Action::FunctionCall(c) => c.method_name@,
        _ => Seq::empty(),
    }
}

/// The deposit of a call or deploy, or the amount of a transfer.
pub open spec fn action_amount(a: Action) -> Seq<u8> {
    match a {
        Action::FunctionCall(c) => c.deposit@,
        Action::DeployContract(d) => d.deposit@,
        Action::Transfer(t) => t.amount@,
        _ => Seq::empty(),
    }
}

pub open spec fn action_args(a: Action) -> Seq<u8> {
    match a {
        Action::FunctionCall(c) => c.args@,
        Action::DeployContract(d) => d.args@,
        _ => Seq::empty(),
    }
}

pub open spec fn action_gas(a: Action) -> u64 {
    match a {
        Action::FunctionCall(c) => c.gas_limit,
        Action::DeployContract(d) => d.gas_limit,
        Action::ReadShardedData(ReadShardedDataAction::ReadContractData(r)) => r.gas_limit,
        Action::ReadShardedData(ReadShardedDataAction::GetIdentity(r)) => r.gas_limit,
        _ => 0,
    }
}

pub open spec fn action_code(a: Action) -> Seq<u8> {
    match a {
        Action::DeployContract(d) => d.code@,
        _ => Seq::empty(),
    }
}

pub open spec fn action_nonce(a: Action) -> Seq<u8> {
    match a {
        Action::DeployContract(d) => d.nonce@,
        _ => Seq::empty(),
    }
}

/// The key of a storage read, or the address of an identity read.
pub open spec fn action_key(a: Action) -> Seq<u8> {
    match a {
        Action::ReadShardedData(ReadShardedDataAction::ReadContractData(r)) => r.key@,
        Action::ReadShardedData(ReadShardedDataAction::GetIdentity(r)) => r.addr@,
        _ => Seq::empty(),
    }
}

/// The wire form of an action: its kind byte, then method, amount,
/// arguments, gas limit, code, nonce and key, empty where the kind has none.
#[verifier::opaque]
pub open spec fn action_bytes(a: Action) -> Seq<u8> {
    record_bytes(
        action_kind(a),
        action_method(a),
        action_amount(a),
        action_args(a),
        action_gas(a),
        action_code(a),
        action_nonce(a),
        action_key(a),
    )
}

/// The fields of an action record, one after another.
pub open spec fn record_bytes(
    kind: u8,
    method: Seq<char>,
    amount: Seq<u8>,
    args: Seq<u8>,
    gas: u64,
    code: Seq<u8>,
    nonce: Seq<u8>,
    key: Seq<u8>,
) -> Seq<u8> {
    seq![kind] + fields_bytes(method, amount, args, gas, code, nonce, key)
}

/// The fields of an action record after its kind byte.
pub open spec fn fields_bytes(
    method: Seq<char>,
    amount: Seq<u8>,
    args: Seq<u8>,
    gas: u64,
    code: Seq<u8>,
    nonce: Seq<u8>,
    key: Seq<u8>,
) -> Seq<u8> {
    framed64(encode_utf8(method)) + framed64(amount) + framed64(args) + le64_bytes(gas) + framed64(
        code,
    ) + framed64(nonce) + framed64(key)
}

/// The wire form of a result node: its head, then its children in order.
pub open spec fn result_bytes(r: ActionResult) -> Seq<u8>
    decreases r, r.sub_action_results@.len() + 1,
{
    head_bytes(r) + children_bytes(r, r.sub_action_results@.len() as int)
}

/// The wire forms of the first `i` children of `r`, one after another.
pub open spec fn children_bytes(r: ActionResult, i: int) -> Seq<u8>
    decreases r, i,
{
    if i <= 0 || i > r.sub_action_results@.len() {
        Seq::empty()
    } else {
        children_bytes(r, i - 1) + result_bytes(r.sub_action_results@[i - 1])
    }
}

/// Appends the little-endian bytes of `x`.
pub fn put_u64(out: &mut Vec<u8>, x: u64)
    ensures
        final(out)@ == old(out)@ + le64_bytes(x),
{
    put_u32(out, (x % 0x1_0000_0000) as u32);
    put_u32(out, (x / 0x1_0000_0000) as u32);
    assert(final(out)@ =~= old(out)@ + le64_bytes(x));
}

/// Appends bytes with their 64-bit length in front.
pub fn put_framed64(out: &mut Vec<u8>, s: &[u8])
    ensures
        final(out)@ == old(out)@ + framed64(s@),
{
    put_u64(out, s.len() as u64);
    put_raw(out, s);
    assert(final(out)@ =~= old(out)@ + framed64(s@));
}

/// Appends the UTF-8 bytes of a text with their length in front.
pub fn put_text(out: &mut Vec<u8>, s: &String)
    ensures
        final(out)@ == old(out)@ + framed64(encode_utf8(s@)),
{
    put_framed64(out, s.as_str().as_bytes());
}

/// Appends the fields of an action record after its kind byte.
fn put_fields(
    out: &mut Vec<u8>,
    method: &String,
    amount: &[u8],
    args: &[u8],
    gas: u64,
    code: &[u8],
    nonce: &[u8],
    key: &[u8],
)
    ensures
        final(out)@ == old(out)@ + fields_bytes(method@, amount@, args@, gas, code@, nonce@, key@),
{
    let ghost o = out@;
    put_text(out, method);
    put_framed64(out, amount);
    put_framed64(out, args);
    put_u64(out, gas);
    put_framed64(out, code);
    put_framed64(out, nonce);
    put_framed64(out, key);
    assert(out@ =~= o + fields_bytes(method@, amount@, args@, gas, code@, nonce@, key@));
}

/// Appends the fields of an action record.
fn put_record(
    out: &mut Vec<u8>,
    kind: u8,
    method: &String,
    amount: &[u8],
    args: &[u8],
    gas: u64,
    code: &[u8],
    nonce: &[u8],
    key: &[u8],
)
    ensures
        final(out)@ == old(out)@ + record_bytes(kind, method@, amount@, args@, gas, code@, nonce@, key@),
{
    let ghost o = out@;
    out.push(kind);
    put_fields(out, method, amount, args, gas, code, nonce, key);
    assert(out@ =~= o + record_bytes(kind, method@, amount@, args@, gas, code@, nonce@, key@));
}

/// Appends the wire form of an action.
pub fn put_action(out: &mut Vec<u8>, a: &Action)
    ensures
        final(out)@ == old(out)@ + action_bytes(*a),
{
    let e: Vec<u8> = Vec::new();
    let none = String::new();
    assert(e@ =~= Seq::<u8>::empty());
    assert(none@ =~= Seq::<char>::empty());
    reveal(action_bytes);
    match a {
        Action::Unset => put_record(out, 0, &none, &e, &e, 0, &e, &e, &e),
        Action::FunctionCall(c) => put_record(
            out,
            1,
            &c.method_name,
            c.deposit.as_slice(),
            c.args.as_slice(),
            c.gas_limit,
            &e,
            &e,
            &e,
        ),
        Action::Transfer(t) => put_record(out, 2, &none, t.amount.as_slice(), &e, 0, &e, &e, &e),
        Action::DeployContract(d) => put_record(
            out,
            3,
            &none,
            d.deposit.as_slice(),
            d.args.as_slice(),
            d.gas_limit,
            d.code.as_slice(),
            d.nonce.as_slice(),
            &e,
        ),
        Action::ReadShardedData(ReadShardedDataAction::ReadContractData(r)) => put_record(
            out,
            4,
            &none,
            &e,
            &e,
            r.gas_limit,
            &e,
            &e,
            r.key.as_slice(),
        ),
        Action::ReadShardedData(ReadShardedDataAction::GetIdentity(r)) => put_record(
            out,
            5,
            &none,
            &e,
            &e,
            r.gas_limit,
            &e,
            &e,
            r.addr.as_slice(),
        ),
    }
}

/// The fields of a node ahead of its children: its action, gas used,
/// remaining gas, success byte, error text, output, contract, and number of
/// children.
pub open spec fn head_bytes(r: ActionResult) -> Seq<u8> {
    action_bytes(r.input_action) + tail_bytes(
        r.gas_used,
        r.remaining_gas,
        r.success,
        r.error@,
        r.output_data@,
        r.contract@,
        r.sub_action_results@.len() as u64,
    )
}

/// The fields of a node between its action and its children.
#[verifier::opaque]
pub open spec fn tail_bytes(
    gas_used: u64,
    remaining: u64,
    success: bool,
    error: Seq<char>,
    output: Seq<u8>,
    contract: Seq<u8>,
    count: u64,
) -> Seq<u8> {
    le64_bytes(gas_used) + le64_bytes(remaining) + seq![if success { 1u8 } else { 0u8 }] + framed64(
        encode_utf8(error),
    ) + framed64(output) + framed64(contract) + le64_bytes(count)
}

/// Appends the fields of a node between its action and its children.
fn put_tail(out: &mut Vec<u8>, r: &ActionResult)
    ensures
        final(out)@ == old(out)@ + tail_bytes(
            r.gas_used,
            r.remaining_gas,
            r.success,
            r.error@,
            r.output_data@,
            r.contract@,
            r.sub_action_results@.len() as u64,
        ),
{
    let ghost o = out@;
    reveal(tail_bytes);
    put_u64(out, r.gas_used);
    put_u64(out, r.remaining_gas);
    out.push(if r.success { 1u8 } else { 0u8 });
    put_text(out, &r.error);
    put_framed64(out, r.output_data.as_slice());
    put_framed64(out, r.contract.as_slice());
    put_u64(out, r.sub_action_results.len() as u64);
    assert(out@ =~= o + tail_bytes(
        r.gas_used,
        r.remaining_gas,
        r.success,
        r.error@,
        r.output_data@,
        r.contract@,
        r.sub_action_results@.len() as u64,
    ));
}

/// Appends the fields of a node ahead of its children.
fn put_head(out: &mut Vec<u8>, r: &ActionResult)
    ensures
        final(out)@ == old(out)@ + head_bytes(*r),
{
    let ghost o = out@;
    put_action(out, &r.input_action);
    put_tail(out, r);
    assert(out@ =~= o + head_bytes(*r));
}

/// Appends the wire form of a result tree.
pub fn put_result(out: &mut Vec<u8>, r: &ActionResult)
    ensures
        final(out)@ == old(out)@ + result_bytes(*r),
    decreases r,
{
    let ghost o = out@;
    put_head(out, r);
    let n = r.sub_action_results.len();
    let ghost head = out@;
    let mut i: usize = 0;
    while i < n
        invariant
            n == r.sub_action_results@.len(),
            i <= n,
            out@ == head + children_bytes(*r, i as int),
        decreases n - i,
    {
        put_result(out, &r.sub_action_results[i]);
        i = i + 1;
        assert(out@ =~= head + children_bytes(*r, i as int));
    }
    assert(out@ =~= o + result_bytes(*r));
}

/// Encodes a result tree.
pub fn encode_action_result(r: &ActionResult) -> (out: Vec<u8>)
    ensures
        out@ == result_bytes(*r),
{
    let mut out: Vec<u8> = Vec::new();
    put_result(&mut out, r);
    assert(out@ =~= result_bytes(*r));
    out
}

/// The bytes `e` stand in `b` from position `p` on.
pub open spec fn at(b: Seq<u8>, p: int, e: Seq<u8>) -> bool {
    &&& 0 <= p
    &&& p + e.len() <= b.len()
    &&& b.subrange(p, p + e.len()) == e
}

/// Bytes that stand somewhere stand there part by part.
pub proof fn lemma_at_split(b: Seq<u8>, p: int, x: Seq<u8>, y: Seq<u8>)
    requires
        at(b, p, x + y),
    ensures
        at(b, p, x),
        at(b, p + x.len(), y),
{
    let w = b.subrange(p, p + x.len() + y.len());
    assert(w == x + y);
    assert(b.subrange(p, p + x.len()) =~= w.subrange(0, x.len() as int));
    assert(w.subrange(0, x.len() as int) =~= x);
    assert(b.subrange(p + x.len(), p + x.len() + y.len()) =~= w.subrange(
        x.len() as int,
        w.len() as int,
    ));
    assert(w.subrange(x.len() as int, w.len() as int) =~= y);
}

/// Reads the little-endian 64-bit word at `pos`.
fn get_u64(b: &[u8], pos: usize) -> (r: Option<u64>)
    ensures
        forall|y: u64| #[trigger] at(b@, pos as int, le64_bytes(y)) ==> r == Some(y),
        r is Some ==> pos + 8 <= b@.len(),
{
    if pos > b.len() || b.len() - pos < 8 {
        return None;
    }
    let lo = b[pos] as u64 + 256 * (b[pos + 1] as u64) + 65536 * (b[pos + 2] as u64) + 16777216 * (
    b[pos + 3] as u64);
    let hi = b[pos + 4] as u64 + 256 * (b[pos + 5] as u64) + 65536 * (b[pos + 6] as u64) + 16777216 * (
    b[pos + 7] as u64);
    assert(hi * 0x1_0000_0000 + lo <= u64::MAX) by (nonlinear_arith)
        requires
            hi <= 0xFFFF_FFFF,
            lo <= 0xFFFF_FFFF,
    ;
    let x = hi * 0x1_0000_0000 + lo;
    proof {
        assert forall|y: u64| #[trigger] at(b@, pos as int, le64_bytes(y)) implies x == y by {
            let l = (y % 0x1_0000_0000) as u32;
            let h = (y / 0x1_0000_0000) as u32;
            lemma_at_split(b@, pos as int, le32_bytes(l), le32_bytes(h));
            lemma_le32_bytes(l);
            lemma_le32_bytes(h);
            let s1 = b@.subrange(pos as int, pos + 4);
            let s2 = b@.subrange(pos + 4, pos + 8);
            assert(le32(s1, 0) == le32(b@, pos as int));
            assert(le32(s2, 0) == le32(b@, pos + 4));
            assert(y == h * 0x1_0000_0000 + l) by (nonlinear_arith)
                requires
                    l == y % 0x1_0000_0000,
                    h == y / 0x1_0000_0000,
            ;
        }
    }
    Some(x)
}

/// Reads bytes framed by their 64-bit length; returns them and the position
/// after them.
fn get_framed(b: &[u8], pos: usize) -> (r: Option<(Vec<u8>, usize)>)
    ensures
        forall|s: Seq<u8>|
            #[trigger] at(b@, pos as int, framed64(s)) ==> (r matches Some((v, e)) && v@ == s && e
                == pos + framed64(s).len()),
        r matches Some((_, e)) ==> pos + 8 <= e <= b@.len(),
{
    let n = match get_u64(b, pos) {
        Some(n) => n,
        None => {
            proof {
                assert forall|s: Seq<u8>| !#[trigger] at(b@, pos as int, framed64(s)) by {
                    if at(b@, pos as int, framed64(s)) {
                        lemma_at_split(b@, pos as int, le64_bytes(s.len() as u64), s);
                    }
                }
            }
            return None;
        },
    };
    if pos > b.len() || b.len() - pos < 8 || ((b.len() - pos - 8) as u64) < n {
        proof {
            assert forall|s: Seq<u8>| !#[trigger] at(b@, pos as int, framed64(s)) by {
                if at(b@, pos as int, framed64(s)) {
                    lemma_at_split(b@, pos as int, le64_bytes(s.len() as u64), s);
                }
            }
        }
        return None;
    }
    let start = pos + 8;
    let end = start + n as usize;
    let mut v: Vec<u8> = Vec::with_capacity(n as usize);
    let mut i: usize = start;
    while i < end
        invariant
            start <= i <= end <= b@.len(),
            v@ == b@.subrange(start as int, i as int),
        decreases end - i,
    {
        v.push(b[i]);
        i = i + 1;
        assert(v@ =~= b@.subrange(start as int, i as int));
    }
    proof {
        assert forall|s: Seq<u8>| #[trigger] at(b@, pos as int, framed64(s)) implies v@ == s && end
            == pos + framed64(s).len() by {
            lemma_at_split(b@, pos as int, le64_bytes(s.len() as u64), s);
        }
    }
    Some((v, end))
}

/// Reads a text as UTF-8 bytes framed by their length.
fn get_text(b: &[u8], pos: usize) -> (r: Option<(String, usize)>)
    ensures
        forall|c: Seq<char>|
            #[trigger] at(b@, pos as int, framed64(encode_utf8(c))) ==> (r matches Some((t, e)) && t@
                == c && e == pos + framed64(encode_utf8(c)).len()),
        r matches Some((_, e)) ==> pos + 8 <= e <= b@.len(),
{
    let (bytes, end) = match get_framed(b, pos) {
        Some(x) => x,
        None => return None,
    };
    match text_from_utf8(bytes.as_slice()) {
        Some(t) => {
            proof {
                assert forall|c: Seq<char>| #[trigger] at(
                    b@,
                    pos as int,
                    framed64(encode_utf8(c)),
                ) implies t@ == c by {
                    encode_utf8_decode_utf8(c);
                }
            }
            Some((t, end))
        },
        None => {
            proof {
                assert forall|c: Seq<char>| !#[trigger] at(b@, pos as int, framed64(encode_utf8(c))) by {
                    if at(b@, pos as int, framed64(encode_utf8(c))) {
                        encode_utf8_valid_utf8(c);
                    }
                }
            }
            None
        },
    }
}

/// Where each field stands, when all the fields stand at `p`.
pub proof fn lemma_fields_parts(
    b: Seq<u8>,
    p: int,
    method: Seq<char>,
    amount: Seq<u8>,
    args: Seq<u8>,
    gas: u64,
    code: Seq<u8>,
    nonce: Seq<u8>,
    key: Seq<u8>,
)
    requires
        at(b, p, fields_bytes(method, amount, args, gas, code, nonce, key)),
    ensures
        ({
            let p2 = p + framed64(encode_utf8(method)).len();
            let p3 = p2 + framed64(amount).len();
            let p4 = p3 + framed64(args).len();
            let p5 = p4 + 8;
            let p6 = p5 + framed64(code).len();
            let p7 = p6 + framed64(nonce).len();
            &&& at(b, p, framed64(encode_utf8(method)))
            &&& at(b, p2, framed64(amount))
            &&& at(b, p3, framed64(args))
            &&& at(b, p4, le64_bytes(gas))
            &&& at(b, p5, framed64(code))
            &&& at(b, p6, framed64(nonce))
            &&& at(b, p7, framed64(key))
            &&& fields_bytes(method, amount, args, gas, code, nonce, key).len() == p7 + framed64(
                key,
            ).len() - p
        }),
{
    let f1 = framed64(encode_utf8(method));
    let f2 = framed64(amount);
    let f3 = framed64(args);
    let f4 = le64_bytes(gas);
    let f5 = framed64(code);
    let f6 = framed64(nonce);
    let f7 = framed64(key);
    lemma_at_split(b, p, f1 + f2 + f3 + f4 + f5 + f6, f7);
    lemma_at_split(b, p, f1 + f2 + f3 + f4 + f5, f6);
    lemma_at_split(b, p, f1 + f2 + f3 + f4, f5);
    lemma_at_split(b, p, f1 + f2 + f3, f4);
    lemma_at_split(b, p, f1 + f2, f3);
    lemma_at_split(b, p, f1, f2);
}

/// Where the kind byte and the fields of an action stand.
pub proof fn lemma_action_parts(b: Seq<u8>, p: int, a: Action)
    requires
        at(b, p, action_bytes(a)),
    ensures
        p < b.len(),
        b[p] == action_kind(a),
        at(
            b,
            p + 1,
            fields_bytes(
                action_method(a),
                action_amount(a),
                action_args(a),
                action_gas(a),
                action_code(a),
                action_nonce(a),
                action_key(a),
            ),
        ),
        action_bytes(a).len() == 1 + fields_bytes(
            action_method(a),
            action_amount(a),
            action_args(a),
            action_gas(a),
            action_code(a),
            action_nonce(a),
            action_key(a),
        ).len(),
{
    reveal(action_bytes);
    let f = fields_bytes(
        action_method(a),
        action_amount(a),
        action_args(a),
        action_gas(a),
        action_code(a),
        action_nonce(a),
        action_key(a),
    );
    lemma_at_split(b, p, seq![action_kind(a)], f);
    assert(b.subrange(p, p + 1)[0] == b[p]);
}

/// Reads an action record; returns the action and the position after it.
pub fn get_action(b: &[u8], pos: usize) -> (r: Option<(Action, usize)>)
    ensures
        forall|a: Action|
            #[trigger] at(b@, pos as int, action_bytes(a)) ==> (r matches Some((x, e)) && same_action(
                x,
                a,
            ) && e == pos + action_bytes(a).len()),
        r matches Some((_, e)) ==> pos < e <= b@.len(),
{
    if pos >= b.len() {
        proof {
            assert forall|a: Action| !#[trigger] at(b@, pos as int, action_bytes(a)) by {
                if at(b@, pos as int, action_bytes(a)) {
                    lemma_action_parts(b@, pos as int, a);
                }
            }
        }
        return None;
    }
    let kind = b[pos];
    let parts = get_fields(b, pos + 1);
    assert(pos + 1 <= b@.len());
    let (method, amount, args, gas, code, nonce, key, end) = match parts {
        Some(x) => x,
        None => {
            proof {
                assert forall|a: Action| !#[trigger] at(b@, pos as int, action_bytes(a)) by {
                    if at(b@, pos as int, action_bytes(a)) {
                        lemma_action_parts(b@, pos as int, a);
                    }
                }
            }
            return None;
        },
    };
    let x = if kind == 1 {
        Action::FunctionCall(FunctionCallAction { method_name: method, args, gas_limit: gas, deposit: amount })
    } else if kind == 2 {
        Action::Transfer(TransferAction { amount })
    } else if kind == 3 {
        Action::DeployContract(DeployContractAction { code, nonce, args, gas_limit: gas, deposit: amount })
    } else if kind == 4 {
        Action::ReadShardedData(ReadShardedDataAction::ReadContractData(ReadContractDataAction { gas_limit: gas, key }))
    } else if kind == 5 {
        Action::ReadShardedData(ReadShardedDataAction::GetIdentity(GetIdentityAction { gas_limit: gas, addr: key }))
    } else {
        Action::Unset
    };
    proof {
        assert forall|a: Action| #[trigger] at(b@, pos as int, action_bytes(a)) implies same_action(x, a)
            && end == pos + action_bytes(a).len() by {
            lemma_action_parts(b@, pos as int, a);
        }
    }
    Some((x, end))
}

/// Reads the seven fields of an action record that follow its kind byte;
/// returns them and the position after them.
fn get_fields(b: &[u8], pos: usize) -> (r: Option<
    (String, Vec<u8>, Vec<u8>, u64, Vec<u8>, Vec<u8>, Vec<u8>, usize),
>)
    ensures
        forall|m: Seq<char>, am: Seq<u8>, ar: Seq<u8>, g: u64, c: Seq<u8>, n: Seq<u8>, k: Seq<u8>|
            #[trigger] at(b@, pos as int, fields_bytes(m, am, ar, g, c, n, k)) ==> (r matches Some(
                (tm, tam, tar, tg, tc, tn, tk, e),
            ) && tm@ == m && tam@ == am && tar@ == ar && tg == g && tc@ == c && tn@ == n && tk@ == k
                && e == pos + fields_bytes(m, am, ar, g, c, n, k).len()),
        r matches Some((.., e)) ==> pos < e <= b@.len(),
{
    let (method, p2) = match get_text(b, pos) {
        Some(x) => x,
        None => {
            proof {
                assert forall|m: Seq<char>, am: Seq<u8>, ar: Seq<u8>, g: u64, c: Seq<u8>, n: Seq<u8>, k: Seq<u8>|
                    !#[trigger] at(b@, pos as int, fields_bytes(m, am, ar, g, c, n, k)) by {
                    if at(b@, pos as int, fields_bytes(m, am, ar, g, c, n, k)) {
                        lemma_fields_parts(b@, pos as int, m, am, ar, g, c, n, k);
                    }
                }
            }
            return None;
        },
    };
    let (amount, p3) = match get_framed(b, p2) {
        Some(x) => x,
        None => {
            proof {
                assert forall|m: Seq<char>, am: Seq<u8>, ar: Seq<u8>, g: u64, c: Seq<u8>, n: Seq<u8>, k: Seq<u8>|
                    !#[trigger] at(b@, pos as int, fields_bytes(m, am, ar, g, c, n, k)) by {
                    if at(b@, pos as int, fields_bytes(m, am, ar, g, c, n, k)) {
                        lemma_fields_parts(b@, pos as int, m, am, ar, g, c, n, k);
                    }
                }
            }
            return None;
        },
    };
    let (args, p4) = match get_framed(b, p3) {
        Some(x) => x,
        None => {
            proof {
                assert forall|m: Seq<char>, am: Seq<u8>, ar: Seq<u8>, g: u64, c: Seq<u8>, n: Seq<u8>, k: Seq<u8>|
                    !#[trigger] at(b@, pos as int, fields_bytes(m, am, ar, g, c, n, k)) by {
                    if at(b@, pos as int, fields_bytes(m, am, ar, g, c, n, k)) {
                        lemma_fields_parts(b@, pos as int, m, am, ar, g, c, n, k);
                    }
                }
            }
            return None;
        },
    };
    let gas = match get_u64(b, p4) {
        Some(x) => x,
        None => {
            proof {
                assert forall|m: Seq<char>, am: Seq<u8>, ar: Seq<u8>, g: u64, c: Seq<u8>, n: Seq<u8>, k: Seq<u8>|
                    !#[trigger] at(b@, pos as int, fields_bytes(m, am, ar, g, c, n, k)) by {
                    if at(b@, pos as int, fields_bytes(m, am, ar, g, c, n, k)) {
                        lemma_fields_parts(b@, pos as int, m, am, ar, g, c, n, k);
                    }
                }
            }
            return None;
        },
    };
    if p4 > b.len() || b.len() - p4 < 8 {
        proof {
            assert forall|m: Seq<char>, am: Seq<u8>, ar: Seq<u8>, g: u64, c: Seq<u8>, n: Seq<u8>, k: Seq<u8>|
                !#[trigger] at(b@, pos as int, fields_bytes(m, am, ar, g, c, n, k)) by {
                if at(b@, pos as int, fields_bytes(m, am, ar, g, c, n, k)) {
                    lemma_fields_parts(b@, pos as int, m, am, ar, g, c, n, k);
                }
            }
        }
        return None;
    }
    let p5 = p4 + 8;
    let (code, p6) = match get_framed(b, p5) {
        Some(x) => x,
        None => {
            proof {
                assert forall|m: Seq<char>, am: Seq<u8>, ar: Seq<u8>, g: u64, c: Seq<u8>, n: Seq<u8>, k: Seq<u8>|
                    !#[trigger] at(b@, pos as int, fields_bytes(m, am, ar, g, c, n, k)) by {
                    if at(b@, pos as int, fields_bytes(m, am, ar, g, c, n, k)) {
                        lemma_fields_parts(b@, pos as int, m, am, ar, g, c, n, k);
                    }
                }
            }
            return None;
        },
    };
    let (nonce, p7) = match get_framed(b, p6) {
        Some(x) => x,
        None => {
            proof {
                assert forall|m: Seq<char>, am: Seq<u8>, ar: Seq<u8>, g: u64, c: Seq<u8>, n: Seq<u8>, k: Seq<u8>|
                    !#[trigger] at(b@, pos as int, fields_bytes(m, am, ar, g, c, n, k)) by {
                    if at(b@, pos as int, fields_bytes(m, am, ar, g, c, n, k)) {
                        lemma_fields_parts(b@, pos as int, m, am, ar, g, c, n, k);
                    }
                }
            }
            return None;
        },
    };
    let (key, end) = match get_framed(b, p7) {
        Some(x) => x,
        None => {
            proof {
                assert forall|m: Seq<char>, am: Seq<u8>, ar: Seq<u8>, g: u64, c: Seq<u8>, n: Seq<u8>, k: Seq<u8>|
                    !#[trigger] at(b@, pos as int, fields_bytes(m, am, ar, g, c, n, k)) by {
                    if at(b@, pos as int, fields_bytes(m, am, ar, g, c, n, k)) {
                        lemma_fields_parts(b@, pos as int, m, am, ar, g, c, n, k);
                    }
                }
            }
            return None;
        },
    };
    proof {
        assert forall|m: Seq<char>, am: Seq<u8>, ar: Seq<u8>, g: u64, c: Seq<u8>, n: Seq<u8>, k: Seq<u8>|
            #[trigger] at(b@, pos as int, fields_bytes(m, am, ar, g, c, n, k)) implies method@ == m
                && amount@ == am && args@ == ar && gas == g && code@ == c && nonce@ == n && key@ == k
                && end == pos + fields_bytes(m, am, ar, g, c, n, k).len() by {
            lemma_fields_parts(b@, pos as int, m, am, ar, g, c, n, k);
        }
    }
    Some((method, amount, args, gas, code, nonce, key, end))
}

/// Where each field of a node's tail stands, when the tail stands at `p`.
pub proof fn lemma_tail_parts(
    b: Seq<u8>,
    p: int,
    gas_used: u64,
    remaining: u64,
    success: bool,
    error: Seq<char>,
    output: Seq<u8>,
    contract: Seq<u8>,
    count: u64,
)
    requires
        at(b, p, tail_bytes(gas_used, remaining, success, error, output, contract, count)),
    ensures
        ({
            let p4 = p + 17;
            let p5 = p4 + framed64(encode_utf8(error)).len();
            let p6 = p5 + framed64(output).len();
            let p7 = p6 + framed64(contract).len();
            &&& at(b, p, le64_bytes(gas_used))
            &&& at(b, p + 8, le64_bytes(remaining))
            &&& p + 16 < b.len() && b[p + 16] == if success { 1u8 } else { 0u8 }
            &&& at(b, p4, framed64(encode_utf8(error)))
            &&& at(b, p5, framed64(output))
            &&& at(b, p6, framed64(contract))
            &&& at(b, p7, le64_bytes(count))
            &&& tail_bytes(gas_used, remaining, success, error, output, contract, count).len() == p7
                + 8 - p
        }),
{
    reveal(tail_bytes);
    let f1 = le64_bytes(gas_used);
    let f2 = le64_bytes(remaining);
    let f3 = seq![if success { 1u8 } else { 0u8 }];
    let f4 = framed64(encode_utf8(error));
    let f5 = framed64(output);
    let f6 = framed64(contract);
    let f7 = le64_bytes(count);
    assert(f1.len() == 8);
    assert(f2.len() == 8);
    assert(f3.len() == 1);
    assert(f7.len() == 8);
    assert(tail_bytes(gas_used, remaining, success, error, output, contract, count) == f1 + f2 + f3
        + f4 + f5 + f6 + f7);
    lemma_at_split(b, p, f1 + f2 + f3 + f4 + f5 + f6, f7);
    lemma_at_split(b, p, f1 + f2 + f3 + f4 + f5, f6);
    lemma_at_split(b, p, f1 + f2 + f3 + f4, f5);
    lemma_at_split(b, p, f1 + f2 + f3, f4);
    lemma_at_split(b, p, f1 + f2, f3);
    lemma_at_split(b, p, f1, f2);
    assert(b.subrange(p + 16, p + 17)[0] == b[p + 16]);
}

/// Reads the tail of a node: gas used, remaining gas, success, error text,
/// output, contract and number of children.
fn get_tail(b: &[u8], pos: usize) -> (r: Option<(u64, u64, bool, String, Vec<u8>, Vec<u8>, u64, usize)>)
    ensures
        forall|gu: u64, rg: u64, ok: bool, er: Seq<char>, ou: Seq<u8>, co: Seq<u8>, n: u64|
            #[trigger] at(b@, pos as int, tail_bytes(gu, rg, ok, er, ou, co, n)) ==> (r matches Some(
                (tgu, trg, tok, ter, tou, tco, tn, e),
            ) && tgu == gu && trg == rg && tok == ok && ter@ == er && tou@ == ou && tco@ == co && tn
                == n && e == pos + tail_bytes(gu, rg, ok, er, ou, co, n).len()),
        r matches Some((.., e)) ==> pos < e <= b@.len(),
{
    let _blen = b.len();
    let gas_used = match get_u64(b, pos) {
        Some(x) => x,
        None => {
            proof {
                assert forall|gu: u64, rg: u64, ok: bool, er: Seq<char>, ou: Seq<u8>, co: Seq<u8>, n: u64|
                    !#[trigger] at(b@, pos as int, tail_bytes(gu, rg, ok, er, ou, co, n)) by {
                    if at(b@, pos as int, tail_bytes(gu, rg, ok, er, ou, co, n)) {
                        lemma_tail_parts(b@, pos as int, gu, rg, ok, er, ou, co, n);
                    }
                }
            }
            return None;
        },
    };
    let remaining = match get_u64(b, pos + 8) {
        Some(x) => x,
        None => {
            proof {
                assert forall|gu: u64, rg: u64, ok: bool, er: Seq<char>, ou: Seq<u8>, co: Seq<u8>, n: u64|
                    !#[trigger] at(b@, pos as int, tail_bytes(gu, rg, ok, er, ou, co, n)) by {
                    if at(b@, pos as int, tail_bytes(gu, rg, ok, er, ou, co, n)) {
                        lemma_tail_parts(b@, pos as int, gu, rg, ok, er, ou, co, n);
                    }
                }
            }
            return None;
        },
    };
    if b.len() - pos < 17 {
            proof {
                assert forall|gu: u64, rg: u64, ok: bool, er: Seq<char>, ou: Seq<u8>, co: Seq<u8>, n: u64|
                    !#[trigger] at(b@, pos as int, tail_bytes(gu, rg, ok, er, ou, co, n)) by {
                    if at(b@, pos as int, tail_bytes(gu, rg, ok, er, ou, co, n)) {
                        lemma_tail_parts(b@, pos as int, gu, rg, ok, er, ou, co, n);
                    }
                }
            }
            return None;
    }
    let success = b[pos + 16] == 1;
    if b[pos + 16] > 1 {
            proof {
                assert forall|gu: u64, rg: u64, ok: bool, er: Seq<char>, ou: Seq<u8>, co: Seq<u8>, n: u64|
                    !#[trigger] at(b@, pos as int, tail_bytes(gu, rg, ok, er, ou, co, n)) by {
                    if at(b@, pos as int, tail_bytes(gu, rg, ok, er, ou, co, n)) {
                        lemma_tail_parts(b@, pos as int, gu, rg, ok, er, ou, co, n);
                    }
                }
            }
            return None;
    }
    let (error, p5) = match get_text(b, pos + 17) {
        Some(x) => x,
        None => {
            proof {
                assert forall|gu: u64, rg: u64, ok: bool, er: Seq<char>, ou: Seq<u8>, co: Seq<u8>, n: u64|
                    !#[trigger] at(b@, pos as int, tail_bytes(gu, rg, ok, er, ou, co, n)) by {
                    if at(b@, pos as int, tail_bytes(gu, rg, ok, er, ou, co, n)) {
                        lemma_tail_parts(b@, pos as int, gu, rg, ok, er, ou, co, n);
                    }
                }
            }
            return None;
        },
    };
    let (output, p6) = match get_framed(b, p5) {
        Some(x) => x,
        None => {
            proof {
                assert forall|gu: u64, rg: u64, ok: bool, er: Seq<char>, ou: Seq<u8>, co: Seq<u8>, n: u64|
                    !#[trigger] at(b@, pos as int, tail_bytes(gu, rg, ok, er, ou, co, n)) by {
                    if at(b@, pos as int, tail_bytes(gu, rg, ok, er, ou, co, n)) {
                        lemma_tail_parts(b@, pos as int, gu, rg, ok, er, ou, co, n);
                    }
                }
            }
            return None;
        },
    };
    let (contract, p7) = match get_framed(b, p6) {
        Some(x) => x,
        None => {
            proof {
                assert forall|gu: u64, rg: u64, ok: bool, er: Seq<char>, ou: Seq<u8>, co: Seq<u8>, n: u64|
                    !#[trigger] at(b@, pos as int, tail_bytes(gu, rg, ok, er, ou, co, n)) by {
                    if at(b@, pos as int, tail_bytes(gu, rg, ok, er, ou, co, n)) {
                        lemma_tail_parts(b@, pos as int, gu, rg, ok, er, ou, co, n);
                    }
                }
            }
            return None;
        },
    };
    let count = match get_u64(b, p7) {
        Some(x) => x,
        None => {
            proof {
                assert forall|gu: u64, rg: u64, ok: bool, er: Seq<char>, ou: Seq<u8>, co: Seq<u8>, n: u64|
                    !#[trigger] at(b@, pos as int, tail_bytes(gu, rg, ok, er, ou, co, n)) by {
                    if at(b@, pos as int, tail_bytes(gu, rg, ok, er, ou, co, n)) {
                        lemma_tail_parts(b@, pos as int, gu, rg, ok, er, ou, co, n);
                    }
                }
            }
            return None;
        },
    };
    proof {
        assert forall|gu: u64, rg: u64, ok: bool, er: Seq<char>, ou: Seq<u8>, co: Seq<u8>, n: u64|
            #[trigger] at(b@, pos as int, tail_bytes(gu, rg, ok, er, ou, co, n)) implies gas_used == gu
                && remaining == rg && success == ok && error@ == er && output@ == ou && contract@ == co
                && count == n && p7 + 8 == pos + tail_bytes(gu, rg, ok, er, ou, co, n).len() by {
            lemma_tail_parts(b@, pos as int, gu, rg, ok, er, ou, co, n);
        }
    }
    Some((gas_used, remaining, success, error, output, contract, count, p7 + 8))
}

/// Where the action, the tail and the children of a node stand.
pub proof fn lemma_result_parts(b: Seq<u8>, p: int, v: ActionResult)
    requires
        at(b, p, result_bytes(v)),
    ensures
        ({
            let t = tail_bytes(
                v.gas_used,
                v.remaining_gas,
                v.success,
                v.error@,
                v.output_data@,
                v.contract@,
                v.sub_action_results@.len() as u64,
            );
            let p1 = p + action_bytes(v.input_action).len();
            let p2 = p1 + t.len();
            &&& at(b, p, action_bytes(v.input_action))
            &&& at(b, p1, t)
            &&& at(b, p2, children_bytes(v, v.sub_action_results@.len() as int))
            &&& result_bytes(v).len() == p2 + children_bytes(v, v.sub_action_results@.len() as int).len()
                - p
        }),
{
    let a = action_bytes(v.input_action);
    let t = tail_bytes(
        v.gas_used,
        v.remaining_gas,
        v.success,
        v.error@,
        v.output_data@,
        v.contract@,
        v.sub_action_results@.len() as u64,
    );
    let c = children_bytes(v, v.sub_action_results@.len() as int);
    lemma_at_split(b, p, a + t, c);
    lemma_at_split(b, p, a, t);
}

/// The first children of a node stand where all of them do.
pub proof fn lemma_children_prefix(b: Seq<u8>, p: int, v: ActionResult, i: int, n: int)
    requires
        0 <= i <= n <= v.sub_action_results@.len(),
        at(b, p, children_bytes(v, n)),
    ensures
        at(b, p, children_bytes(v, i)),
        i < n ==> at(b, p + children_bytes(v, i).len(), result_bytes(v.sub_action_results@[i])),
    decreases n - i,
{
    if i < n {
        lemma_at_split(b, p, children_bytes(v, n - 1), result_bytes(v.sub_action_results@[n - 1]));
        lemma_children_prefix(b, p, v, i, n - 1);
        if i == n - 1 {
        } else {
            lemma_children_prefix(b, p, v, i, n - 1);
        }
    }
}

/// The fields of a node that stands at `pos`, but for its children.
pub open spec fn head_matches(
    h: (Action, u64, u64, bool, String, Vec<u8>, Vec<u8>, u64, usize),
    v: ActionResult,
) -> bool {
    &&& same_action(h.0, v.input_action)
    &&& h.1 == v.gas_used
    &&& h.2 == v.remaining_gas
    &&& h.3 == v.success
    &&& h.4@ == v.error@
    &&& h.5@ == v.output_data@
    &&& h.6@ == v.contract@
    &&& h.7 == v.sub_action_results@.len()
}

/// Reads the head of a node: everything but its children. Returns the
/// fields and the position of the children.
fn get_head(b: &[u8], pos: usize) -> (r: Option<(Action, u64, u64, bool, String, Vec<u8>, Vec<u8>, u64, usize)>)
    ensures
        forall|v: ActionResult|
            #[trigger] at(b@, pos as int, result_bytes(v)) ==> (r matches Some(h) && head_matches(h, v)
                && at(b@, h.8 as int, children_bytes(v, v.sub_action_results@.len() as int))
                && result_bytes(v).len() == h.8 + children_bytes(v, v.sub_action_results@.len() as int).len() - pos),
        r matches Some(h) ==> pos < h.8 <= b@.len(),
{
    let (action, p1) = match get_action(b, pos) {
        Some(x) => x,
        None => {
            proof {
                assert forall|v: ActionResult| !#[trigger] at(b@, pos as int, result_bytes(v)) by {
                    if at(b@, pos as int, result_bytes(v)) {
                        lemma_result_parts(b@, pos as int, v);
                    }
                }
            }
            return None;
        },
    };
    let (gas_used, remaining, success, error, output, contract, count, p2) = match get_tail(b, p1) {
        Some(x) => x,
        None => {
            proof {
                assert forall|v: ActionResult| !#[trigger] at(b@, pos as int, result_bytes(v)) by {
                    if at(b@, pos as int, result_bytes(v)) {
                        lemma_result_parts(b@, pos as int, v);
                    }
                }
            }
            return None;
        },
    };
    let h = (action, gas_used, remaining, success, error, output, contract, count, p2);
    proof {
        assert forall|v: ActionResult| #[trigger] at(b@, pos as int, result_bytes(v)) implies head_matches(h, v)
            && at(b@, p2 as int, children_bytes(v, v.sub_action_results@.len() as int))
            && result_bytes(v).len() == p2 + children_bytes(v, v.sub_action_results@.len() as int).len() - pos by {
            lemma_result_parts(b@, pos as int, v);
            assert(at(b@, pos as int, action_bytes(v.input_action)));
            assert(same_action(action, v.input_action));
            assert(p1 == pos + action_bytes(v.input_action).len());
            let t = tail_bytes(
                v.gas_used,
                v.remaining_gas,
                v.success,
                v.error@,
                v.output_data@,
                v.contract@,
                v.sub_action_results@.len() as u64,
            );
            assert(at(b@, p1 as int, t));
            assert(p2 == p1 + t.len());
            assert(count == v.sub_action_results@.len() as u64);
            assert(v.sub_action_results.len() == v.sub_action_results@.len());
        }
    }
    Some(h)
}

/// Reads a result tree; returns it and the position after it.
pub fn get_result(b: &[u8], pos: usize) -> (r: Option<(ActionResult, usize)>)
    ensures
        forall|v: ActionResult|
            #[trigger] at(b@, pos as int, result_bytes(v)) ==> (r matches Some((x, e)) && same_result(
                x,
                v,
            ) && e == pos + result_bytes(v).len()),
        r matches Some((_, e)) ==> pos < e <= b@.len(),
    decreases b@.len() - pos, 0nat,
{
    let (action, gas_used, remaining, success, error, output, contract, count, p2) = match get_head(b, pos) {
        Some(h) => h,
        None => return None,
    };
    let ghost h = (action, gas_used, remaining, success, error, output, contract, count, p2);
    let (kids, end) = match get_children(b, p2, count) {
        Some(x) => x,
        None => {
            proof {
                assert forall|v: ActionResult| !#[trigger] at(b@, pos as int, result_bytes(v)) by {
                    if at(b@, pos as int, result_bytes(v)) {
                        assert(head_matches(h, v));
                    }
                }
            }
            return None;
        },
    };
    let x = ActionResult {
        input_action: action,
        gas_used,
        remaining_gas: remaining,
        success,
        error,
        output_data: output,
        sub_action_results: kids,
        contract,
    };
    proof {
        assert forall|v: ActionResult| #[trigger] at(b@, pos as int, result_bytes(v)) implies same_result(x, v)
            && end == pos + result_bytes(v).len() by {
            assert(head_matches(h, v));
            lemma_same_children(x, v, count as int);
        }
    }
    Some((x, end))
}

/// Reads `count` result trees, one after another.
fn get_children(b: &[u8], start: usize, count: u64) -> (r: Option<(Vec<ActionResult>, usize)>)
    ensures
        forall|v: ActionResult|
            v.sub_action_results@.len() == count && #[trigger] at(
                b@,
                start as int,
                children_bytes(v, v.sub_action_results@.len() as int),
            ) ==> (r matches Some((kids, e)) && kids@.len() == count && (forall|j: int|
                0 <= j < count ==> same_result(#[trigger] kids@[j], v.sub_action_results@[j])) && e
                == start + children_bytes(v, count as int).len()),
        r matches Some((_, e)) ==> start <= e <= b@.len(),
    decreases b@.len() - start, 1nat,
{
    if start > b.len() {
        return None;
    }
    let mut kids: Vec<ActionResult> = Vec::new();
    let mut cur = start;
    let mut i: u64 = 0;
    while i < count
        invariant
            start <= cur <= b@.len(),
            i <= count,
            kids@.len() == i,
            forall|v: ActionResult|
                v.sub_action_results@.len() == count && #[trigger] at(
                    b@,
                    start as int,
                    children_bytes(v, v.sub_action_results@.len() as int),
                ) ==> {
                    &&& cur == start + children_bytes(v, i as int).len()
                    &&& forall|j: int|
                        0 <= j < i ==> same_result(#[trigger] kids@[j], v.sub_action_results@[j])
                },
        decreases count - i,
    {
        let (child, e) = match get_result(b, cur) {
            Some(x) => x,
            None => {
                proof {
                    assert forall|v: ActionResult|
                        !(v.sub_action_results@.len() == count && #[trigger] at(
                            b@,
                            start as int,
                            children_bytes(v, v.sub_action_results@.len() as int),
                        )) by {
                        if v.sub_action_results@.len() == count && at(
                            b@,
                            start as int,
                            children_bytes(v, v.sub_action_results@.len() as int),
                        ) {
                            lemma_children_prefix(
                                b@,
                                start as int,
                                v,
                                i as int,
                                v.sub_action_results@.len() as int,
                            );
                        }
                    }
                }
                return None;
            },
        };
        proof {
            assert forall|v: ActionResult|
                v.sub_action_results@.len() == count && #[trigger] at(
                    b@,
                    start as int,
                    children_bytes(v, v.sub_action_results@.len() as int),
                ) implies same_result(child, v.sub_action_results@[i as int]) && e == start
                + children_bytes(v, i + 1).len() by {
                lemma_children_prefix(b@, start as int, v, i as int, v.sub_action_results@.len() as int);
            }
        }
        kids.push(child);
        cur = e;
        i = i + 1;
    }
    Some((kids, cur))
}

/// Decodes a result tree that fills `b` exactly. The encoding of any tree
/// decodes to a tree with the same values, node by node.
pub fn decode_action_result(b: &[u8]) -> (r: Option<ActionResult>)
    ensures
        forall|v: ActionResult| b@ == #[trigger] result_bytes(v) ==> (r matches Some(x) && same_result(x, v)),
{
    let parsed = get_result(b, 0);
    proof {
        assert forall|v: ActionResult| b@ == #[trigger] result_bytes(v) implies at(b@, 0, result_bytes(v)) by {
            assert(b@.subrange(0, b@.len() as int) =~= b@);
        }
    }
    match parsed {
        Some((x, e)) => if e == b.len() {
            Some(x)
        } else {
            None
        },
        None => None,
    }
}

/// Results with the same values encode to the same bytes, so encoding a
/// result twice gives the same bytes.
pub proof fn lemma_encoding_deterministic(a: ActionResult, b: ActionResult)
    requires
        same_result(a, b),
    ensures
        result_bytes(a) == result_bytes(b),
    decreases a, a.sub_action_results@.len() + 1,
{
    reveal(action_bytes);
    assert(action_bytes(a.input_action) == action_bytes(b.input_action));
    assert(head_bytes(a) == head_bytes(b));
    lemma_children_deterministic(a, b, a.sub_action_results@.len() as int);
}

/// `lemma_encoding_deterministic` for the first `i` children.
proof fn lemma_children_deterministic(a: ActionResult, b: ActionResult, i: int)
    requires
        same_result(a, b),
        0 <= i <= a.sub_action_results@.len(),
    ensures
        children_bytes(a, i) == children_bytes(b, i),
    decreases a, i,
{
    if i > 0 {
        lemma_children_deterministic(a, b, i - 1);
        lemma_same_child(a, b, i - 1, a.sub_action_results@.len() as int);
        lemma_encoding_deterministic(a.sub_action_results@[i - 1], b.sub_action_results@[i - 1]);
    }
}

/// The payload of a context whose result tag is 3 stands after the tags.
proof fn lemma_context_value(b: Seq<u8>, c: InvocationContext)
    requires
        b == context_bytes(c),
        b.len() >= 2,
        b[1] == 3,
    ensures
        c.promise_result matches Some(PromiseResult::Value(v)) && at(b, 2, framed64(v@)) && b.len()
            == 2 + framed64(v@).len(),
{
    match c.promise_result {
        Some(PromiseResult::Value(v)) => {
            assert(b.subrange(2, b.len() as int) =~= framed64(v@));
        },
        _ => {
            assert(b[1] != 3);
        },
    }
}

/// Decodes an invocation context that fills `b` exactly. The encoding of any
/// context decodes to a context with the same values.
pub fn decode_invocation_context(b: &[u8]) -> (r: Option<InvocationContext>)
    ensures
        forall|c: InvocationContext|
            b@ == #[trigger] context_bytes(c) ==> (r matches Some(x) && x.is_callback == c.is_callback
                && same_opt_promise_result(x.promise_result, c.promise_result)),
{
    if b.len() < 2 || b[0] > 1 {
        return None;
    }
    let is_callback = b[0] == 1;
    let tag = b[1];
    let promise_result = if tag == 0 {
        None
    } else if tag == 1 {
        Some(PromiseResult::Failed)
    } else if tag == 2 {
        Some(PromiseResult::Empty)
    } else if tag == 3 {
        match get_framed(b, 2) {
            Some((v, e)) => {
                if e != b.len() {
                    proof {
                        assert forall|c: InvocationContext| b@ != #[trigger] context_bytes(c) by {
                            if b@ == context_bytes(c) {
                                lemma_context_value(b@, c);
                            }
                        }
                    }
                    return None;
                }
                Some(PromiseResult::Value(v))
            },
            None => {
                proof {
                    assert forall|c: InvocationContext| b@ != #[trigger] context_bytes(c) by {
                        if b@ == context_bytes(c) {
                            lemma_context_value(b@, c);
                        }
                    }
                }
                return None;
            },
        }
    } else {
        return None;
    };
    if tag != 3 && b.len() != 2 {
        return None;
    }
    proof {
        assert forall|c: InvocationContext| b@ == #[trigger] context_bytes(c) implies is_callback
            == c.is_callback && same_opt_promise_result(promise_result, c.promise_result) by {
            if tag == 3 {
                lemma_context_value(b@, c);
            }
        }
    }
    Some(InvocationContext { is_callback, promise_result })
}

} // verus!
