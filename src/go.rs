//! The status codes that the host's callbacks return.
use vstd::prelude::*;

use crate::backend::BackendError;

verus! {

#[derive(PartialEq, Eq, Structural, Clone, Copy, Debug)]
pub enum GoResult {
    Success,
    /// The host panicked for an unexpected reason.
    Panic,
    /// The host received a bad argument.
    BadArgument,
    /// The host ran out of gas.
    OutOfGas,
    /// A failure that aborts the contract.
    Other,
    /// A failure to report back to the contract.
    User,
}

/// The status that a code stands for; unknown codes are `Other`.
pub open spec fn go_result_of(n: i32) -> GoResult {
    if n == 0 {
        GoResult::Success
    } else if n == 1 {
        GoResult::Panic
    } else if n == 2 {
        GoResult::BadArgument
    } else if n == 3 {
        GoResult::OutOfGas
    } else if n == 5 {
        GoResult::User
    } else {
        GoResult::Other
    }
}

/// The name of a status.
pub open spec fn go_result_text(g: GoResult) -> Seq<char> {
    match g {
        GoResult::Success => "Ok"@,
        GoResult::Panic => "Panic"@,
        GoResult::BadArgument => "BadArgument"@,
        GoResult::OutOfGas => "OutOfGas"@,
        GoResult::Other => "Other Error"@,
        GoResult::User => "User Error"@,
    }
}

impl GoResult {
    pub fn from_code(n: i32) -> (r: GoResult)
        ensures
            r == go_result_of(n),
    {
        if n == 0 {
            GoResult::Success
        } else if n == 1 {
            GoResult::Panic
        } else if n == 2 {
            GoResult::BadArgument
        } else if n == 3 {
            GoResult::OutOfGas
        } else if n == 5 {
            GoResult::User
        } else {
            GoResult::Other
        }
    }

    /// The name of the status.
    pub fn to_string(&self) -> (r: String)
        ensures
            r@ == go_result_text(*self),
    {
        match self {
            GoResult::Success => "Ok".to_owned(),
            GoResult::Panic => "Panic".to_owned(),
            GoResult::BadArgument => "BadArgument".to_owned(),
            GoResult::OutOfGas => "OutOfGas".to_owned(),
            GoResult::Other => "Other Error".to_owned(),
            GoResult::User => "User Error".to_owned(),
        }
    }
}

/// The failure that a host status code reports, named after the primitive
/// `msg`: none for 0, out of gas for 3, a custom error otherwise.
pub fn check_go_result(code: i32, msg: &str) -> (r: Option<BackendError>)
    ensures
        code == 0 <==> r is None,
        code == 3 ==> r matches Some(BackendError::OutOfGas),
        (code != 0 && code != 3) ==> (r matches Some(BackendError::Custom { msg: m }) && m@ == msg@),
{
    if code == 0 {
        None
    } else if code == 3 {
        Some(BackendError::out_of_gas())
    } else {
        Some(BackendError::new(msg))
    }
}

} // verus!
