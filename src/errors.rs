use vstd::prelude::*;
use vstd::string::*;

use crate::backend::{backend_error_text, BackendError};

verus! {

/// The three kinds of failure of the engine.
#[derive(Debug)]
pub enum VmError {
    /// Misuse detected by the engine, or a failure reported by the host.
    Custom { msg: String },
    /// The gas counter reached zero.
    OutOfGas,
    /// A trap raised inside guest code.
    WasmExecutionErr { msg: String },
}

pub type VmResult<T> = Result<T, VmError>;

/// The display text of an error.
pub open spec fn vm_error_text(e: VmError) -> Seq<char> {
    match e {
        VmError::Custom { msg } => "Error calling the VM: "@ + msg@,
        VmError::OutOfGas => "Out of gas"@,
        VmError::WasmExecutionErr { msg } => "Error in wasm module: "@ + msg@,
    }
}

/// The text of a failure that the host reported.
pub open spec fn host_error_text(m: Seq<char>) -> bool {
    m.len() >= 15 && m.subrange(0, 15) == "backend error: "@
}

/// A text that does not start with `b` is not the host's.
pub proof fn lemma_not_host_text(t: Seq<char>)
    requires
        t.len() > 0,
        t[0] != 'b',
    ensures
        !host_error_text(t),
{
    reveal_strlit("backend error: ");
    if t.len() >= 15 {
        assert(t.subrange(0, 15)[0] == t[0]);
    }
}

/// Every error has a non-empty display text.
pub proof fn lemma_error_text_nonempty(e: VmError)
    ensures
        vm_error_text(e).len() > 0,
{
    reveal_strlit("Error calling the VM: ");
    reveal_strlit("Out of gas");
    reveal_strlit("Error in wasm module: ");
}

impl VmError {
    pub fn custom(msg: &str) -> (r: VmError)
        ensures
            r == (VmError::Custom { msg: r->Custom_msg }),
            r->Custom_msg@ == msg@,
    {
        VmError::Custom { msg: msg.to_owned() }
    }

    pub fn custom_string(msg: String) -> (r: VmError)
        ensures
            r == (VmError::Custom { msg }),
    {
        VmError::Custom { msg }
    }

    pub fn wasm_err(msg: String) -> (r: VmError)
        ensures
            r == (VmError::WasmExecutionErr { msg }),
    {
        VmError::WasmExecutionErr { msg }
    }

    pub fn out_of_gas() -> (r: VmError)
        ensures
            r == VmError::OutOfGas,
    {
        VmError::OutOfGas
    }

    /// A host failure surfaced to the engine.
    pub fn from_backend(e: BackendError) -> (r: VmError)
        ensures
            r is Custom,
            r->Custom_msg@ == "backend error: "@ + backend_error_text(e),
            host_error_text(r->Custom_msg@),
    {
        proof {
            reveal_strlit("backend error: ");
            assert(("backend error: "@ + backend_error_text(e)).subrange(0, 15) =~= "backend error: "@);
        }
        let mut s = String::from_str("backend error: ");
        let t = e.to_string();
        s.append(t.as_str());
        VmError::Custom { msg: s }
    }

    /// The display text of the error.
    pub fn to_string(&self) -> (r: String)
        ensures
            r@ == vm_error_text(*self),
    {
        match self {
            VmError::Custom { msg } => {
                let mut s = String::from_str("Error calling the VM: ");
                s.append(msg.as_str());
                s
            },
            VmError::OutOfGas => String::from_str("Out of gas"),
            VmError::WasmExecutionErr { msg } => {
                let mut s = String::from_str("Error in wasm module: ");
                s.append(msg.as_str());
                s
            },
        }
    }
}

} // verus!
