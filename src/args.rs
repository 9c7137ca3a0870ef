//! Call arguments. The wire form, which is this library's own, starts with a
//! format byte: 0 for one plain argument that is the rest of the bytes, 1 for
//! a list: a little-endian 32-bit count, then per argument a nil flag byte
//! (1 nil, 0 not) and its bytes, framed by a little-endian 32-bit length.
use vstd::prelude::*;

use crate::errors::{VmError, VmResult};
use crate::memory::le32;
use crate::types::copy_bytes;

verus! {

pub const ARGS_LIST_FORMAT: u8 = 1;

pub const ARGS_PLAIN_FORMAT: u8 = 0;

/// One argument of a call; a nil argument reaches the guest as 0.
#[derive(Clone, Debug)]
pub struct Argument {
    pub value: Vec<u8>,
    pub is_nil: bool,
}

/// `n` listed arguments that fill `b` exactly.
pub open spec fn parse_items(b: Seq<u8>, n: nat) -> Option<Seq<(bool, Seq<u8>)>>
    decreases n,
{
    if n == 0 {
        if b.len() == 0 {
            Some(Seq::empty())
        } else {
            None
        }
    } else if b.len() < 5 || b[0] > 1 {
        None
    } else if b.len() < 5 + le32(b, 1) {
        None
    } else {
        match parse_items(b.subrange(5 + le32(b, 1), b.len() as int), (n - 1) as nat) {
            None => None,
            Some(rest) => Some(seq![(b[0] == 1, b.subrange(5, 5 + le32(b, 1)))] + rest),
        }
    }
}

/// The arguments that the wire bytes stand for, if they are well formed.
pub open spec fn parse_args(b: Seq<u8>) -> Option<Seq<(bool, Seq<u8>)>> {
    if b.len() == 0 {
        None
    } else if b[0] == ARGS_PLAIN_FORMAT {
        Some(seq![(false, b.subrange(1, b.len() as int))])
    } else if b[0] == ARGS_LIST_FORMAT {
        if b.len() < 5 {
            None
        } else {
            parse_items(b.subrange(5, b.len() as int), le32(b, 1) as nat)
        }
    } else {
        None
    }
}

/// Why some wire bytes are not arguments.
pub open spec fn args_error(b: Seq<u8>) -> Seq<char> {
    if b.len() == 0 {
        "invalid arguments format"@
    } else if b[0] != ARGS_PLAIN_FORMAT && b[0] != ARGS_LIST_FORMAT {
        "unknown format of args"@
    } else {
        "failed to parse arguments"@
    }
}

/// The arguments match their model one for one.
pub open spec fn args_match(v: Seq<Argument>, model: Seq<(bool, Seq<u8>)>) -> bool {
    &&& v.len() == model.len()
    &&& forall|i: int|
        0 <= i < v.len() ==> #[trigger] v[i].is_nil == model[i].0 && v[i].value@ == model[i].1
}

fn word_at(b: &[u8], p: usize) -> (r: usize)
    requires
        p + 4 <= b@.len(),
    ensures
        r as int == le32(b@, p as int),
{
    let w = b[p] as usize + 256 * (b[p + 1] as usize) + 65536 * (b[p + 2] as usize) + 16777216 * (b[p
        + 3] as usize);
    w
}

fn copy_range(b: &[u8], from: usize, to: usize) -> (r: Vec<u8>)
    requires
        from <= to <= b@.len(),
    ensures
        r@ == b@.subrange(from as int, to as int),
{
    let mut out: Vec<u8> = Vec::with_capacity(to - from);
    let mut i: usize = from;
    while i < to
        invariant
            from <= i <= to <= b@.len(),
            out@ == b@.subrange(from as int, i as int),
        decreases to - i,
    {
        out.push(b[i]);
        i = i + 1;
        assert(out@ =~= b@.subrange(from as int, i as int));
    }
    out
}

/// Decodes call arguments.
pub fn convert_args(args: &[u8]) -> (r: VmResult<Vec<Argument>>)
    ensures
        match r {
            Ok(v) => parse_args(args@) is Some && args_match(v@, parse_args(args@)->Some_0),
            Err(e) => parse_args(args@) is None && e is Custom && e->Custom_msg@ == args_error(args@),
        },
{
    if args.len() == 0 {
        return Err(VmError::custom("invalid arguments format"));
    }
    if args[0] == ARGS_PLAIN_FORMAT {
        let mut result: Vec<Argument> = Vec::new();
        result.push(Argument { value: copy_range(args, 1, args.len()), is_nil: false });
        return Ok(result);
    }
    if args[0] != ARGS_LIST_FORMAT {
        return Err(VmError::custom("unknown format of args"));
    }
    if args.len() < 5 {
        return Err(VmError::custom("failed to parse arguments"));
    }
    let count = word_at(args, 1);
    let ghost body = args@.subrange(5, args@.len() as int);
    let ghost model = Seq::<(bool, Seq<u8>)>::empty();
    let mut result: Vec<Argument> = Vec::new();
    let mut pos: usize = 5;
    let mut k: usize = 0;
    let n = args.len();
    while k < count
        invariant
            n == args@.len(),
            5 <= pos <= n,
            k <= count,
            count as int == le32(args@, 1),
            body == args@.subrange(5, n as int),
            parse_args(args@) == parse_items(body, count as nat),
            args@.len() > 0 && args@[0] == ARGS_LIST_FORMAT,
            args_match(result@, model),
            parse_items(body, count as nat) == match parse_items(
                args@.subrange(pos as int, n as int),
                (count - k) as nat,
            ) {
                None => None,
                Some(rest) => Some(model + rest),
            },
        decreases count - k,
    {
        let ghost cur = args@.subrange(pos as int, n as int);
        if n - pos < 5 || args[pos] > 1 {
            assert(parse_items(cur, (count - k) as nat) is None);
            return Err(VmError::custom("failed to parse arguments"));
        }
        let len = word_at(args, pos + 1);
        assert(le32(cur, 1) == le32(args@, pos + 1));
        if n - pos - 5 < len {
            assert(parse_items(cur, (count - k) as nat) is None);
            return Err(VmError::custom("failed to parse arguments"));
        }
        let value = copy_range(args, pos + 5, pos + 5 + len);
        let is_nil = args[pos] == 1;
        let ghost item = (is_nil, value@);
        assert(cur.subrange(5, 5 + le32(cur, 1)) =~= value@);
        assert(cur.subrange(5 + le32(cur, 1), cur.len() as int) =~= args@.subrange(
            (pos + 5 + len) as int,
            n as int,
        ));
        result.push(Argument { value, is_nil });
        proof {
            let old_model = model;
            model = model.push(item);
            match parse_items(args@.subrange((pos + 5 + len) as int, n as int), (count - k - 1) as nat) {
                None => {},
                Some(rest) => {
                    assert(old_model + (seq![item] + rest) =~= model + rest);
                },
            }
        }
        pos = pos + 5 + len;
        k = k + 1;
    }
    if pos != n {
        return Err(VmError::custom("failed to parse arguments"));
    }
    assert(args@.subrange(pos as int, n as int) =~= Seq::<u8>::empty());
    assert(model + Seq::<(bool, Seq<u8>)>::empty() =~= model);
    Ok(result)
}

/// Lays out the guest parameters of a call: one per parameter the export
/// declares, in order; nil arguments and missing trailing ones become `None`,
/// which reaches the guest as 0. More arguments than parameters is an error.
pub fn plan_arguments(params_cnt: usize, args: &Vec<Argument>) -> (r: VmResult<Vec<Option<Vec<u8>>>>)
    ensures
        match r {
            Ok(v) => {
                &&& params_cnt >= args@.len()
                &&& v@.len() == params_cnt
                &&& forall|i: int|
                    0 <= i < params_cnt ==> match #[trigger] v@[i] {
                        None => i >= args@.len() || args@[i].is_nil,
                        Some(d) => i < args@.len() && !args@[i].is_nil && d@ == args@[i].value@,
                    }
            },
            Err(e) => params_cnt < args@.len() && e is Custom && e->Custom_msg@ == "too many arguments"@,
        },
{
    if params_cnt < args.len() {
        return Err(VmError::custom("too many arguments"));
    }
    let mut out: Vec<Option<Vec<u8>>> = Vec::new();
    let mut i: usize = 0;
    while i < params_cnt
        invariant
            params_cnt >= args@.len(),
            i <= params_cnt,
            out@.len() == i,
            forall|j: int|
                0 <= j < i ==> match #[trigger] out@[j] {
                    None => j >= args@.len() || args@[j].is_nil,
                    Some(d) => j < args@.len() && !args@[j].is_nil && d@ == args@[j].value@,
                },
        decreases params_cnt - i,
    {
        if i < args.len() && !args[i].is_nil {
            out.push(Some(copy_bytes(&args[i].value)));
        } else {
            out.push(None);
        }
        i = i + 1;
    }
    Ok(out)
}

} // verus!
