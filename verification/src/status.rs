//! Typed results for the optimizer's signed status codes.
//!
//! Every entry point of the optimizer that configures or drives a problem
//! answers with one signed integer. Positive values name the reason a search
//! ended well, negative values name a failure, and zero names nothing. This
//! module turns such a code into a value of one of two closed enumerations.

use libc::c_int;
use vstd::prelude::*;

verus! {

/// The reasons for which the optimizer reports success.
#[derive(Debug, PartialEq, Eq, Copy, Clone, Structural)]
pub enum NLResult {
    Success,
    StopvalReached,
    FTolReached,
    XTolReached,
    MaxEvalReached,
    MaxTimeReached,
}

/// The failures the optimizer reports, and `Unknown` for every code that
/// names neither a success nor one of the other failures.
#[derive(Debug, PartialEq, Eq, Copy, Clone, Structural)]
pub enum NLError {
    ForcedStop,
    RoundoffLimited,
    OutOfMemory,
    InvalidArgs,
    Failure,
    Unknown,
}

/// What a status code becomes once it is typed.
pub type Res = Result<NLResult, NLError>;

impl NLResult {
    /// The status code that stands for this success.
    pub open spec fn code_of(self) -> int {
        match self {
            NLResult::Success => 1,
            NLResult::StopvalReached => 2,
            NLResult::FTolReached => 3,
            NLResult::XTolReached => 4,
            NLResult::MaxEvalReached => 5,
            NLResult::MaxTimeReached => 6,
        }
    }

    /// The success that `code` stands for, if it stands for one.
    pub open spec fn of_code(code: int) -> Option<NLResult> {
        if code == 1 {
            Some(NLResult::Success)
        } else if code == 2 {
            Some(NLResult::StopvalReached)
        } else if code == 3 {
            Some(NLResult::FTolReached)
        } else if code == 4 {
            Some(NLResult::XTolReached)
        } else if code == 5 {
            Some(NLResult::MaxEvalReached)
        } else if code == 6 {
            Some(NLResult::MaxTimeReached)
        } else {
            None
        }
    }

    /// The status code that stands for this success.
    pub fn code(self) -> (c: c_int)
        ensures
            c == self.code_of(),
    {
        match self {
            NLResult::Success => 1,
            NLResult::StopvalReached => 2,
            NLResult::FTolReached => 3,
            NLResult::XTolReached => 4,
            NLResult::MaxEvalReached => 5,
            NLResult::MaxTimeReached => 6,
        }
    }

    /// The success that `n` stands for; `None` when `n` is not the code of one.
    pub fn from_i32(n: i32) -> (r: Option<NLResult>)
        ensures
            r == NLResult::of_code(n as int),
    {
        if n == 1 {
            Some(NLResult::Success)
        } else if n == 2 {
            Some(NLResult::StopvalReached)
        } else if n == 3 {
            Some(NLResult::FTolReached)
        } else if n == 4 {
            Some(NLResult::XTolReached)
        } else if n == 5 {
            Some(NLResult::MaxEvalReached)
        } else if n == 6 {
            Some(NLResult::MaxTimeReached)
        } else {
            None
        }
    }
}

impl NLError {
    /// The status code that stands for this failure. `Unknown` is numbered
    /// zero, the one code the optimizer never sends.
    pub open spec fn code_of(self) -> int {
        match self {
            NLError::ForcedStop => -5,
            NLError::RoundoffLimited => -4,
            NLError::OutOfMemory => -3,
            NLError::InvalidArgs => -2,
            NLError::Failure => -1,
            NLError::Unknown => 0,
        }
    }

    /// The failure numbered `code`, if there is one.
    pub open spec fn of_code(code: int) -> Option<NLError> {
        if code == -5 {
            Some(NLError::ForcedStop)
        } else if code == -4 {
            Some(NLError::RoundoffLimited)
        } else if code == -3 {
            Some(NLError::OutOfMemory)
        } else if code == -2 {
            Some(NLError::InvalidArgs)
        } else if code == -1 {
            Some(NLError::Failure)
        } else if code == 0 {
            Some(NLError::Unknown)
        } else {
            None
        }
    }

    /// The status code that stands for this failure.
    pub fn code(self) -> (c: c_int)
        ensures
            c == self.code_of(),
    {
        match self {
            NLError::ForcedStop => -5,
            NLError::RoundoffLimited => -4,
            NLError::OutOfMemory => -3,
            NLError::InvalidArgs => -2,
            NLError::Failure => -1,
            NLError::Unknown => 0,
        }
    }

    /// The failure numbered `n`; `None` when no failure has that number.
    pub fn from_i32(n: i32) -> (r: Option<NLError>)
        ensures
            r == NLError::of_code(n as int),
    {
        if n == -5 {
            Some(NLError::ForcedStop)
        } else if n == -4 {
            Some(NLError::RoundoffLimited)
        } else if n == -3 {
            Some(NLError::OutOfMemory)
        } else if n == -2 {
            Some(NLError::InvalidArgs)
        } else if n == -1 {
            Some(NLError::Failure)
        } else if n == 0 {
            Some(NLError::Unknown)
        } else {
            None
        }
    }
}

/// Whether `code` is one the optimizer documents: 1 to 6 for the successes,
/// -5 to -1 for the failures.
pub open spec fn recognized(code: int) -> bool {
    1 <= code <= 6 || -5 <= code <= -1
}

/// The typed meaning of a status code. A positive code is the success with
/// that number, a negative code the failure with that number, and every
/// other code, zero among them, is `Unknown`.
pub open spec fn status_of(code: int) -> Res {
    if code > 0 {
        match NLResult::of_code(code) {
            Some(r) => Ok(r),
            None => Err(NLError::Unknown),
        }
    } else if code < 0 {
        match NLError::of_code(code) {
            Some(e) => Err(e),
            None => Err(NLError::Unknown),
        }
    } else {
        Err(NLError::Unknown)
    }
}

/// Types the status code `v`. Defined for every `i32`.
pub fn to_res(v: c_int) -> (r: Res)
    ensures
        r == status_of(v as int),
        r is Ok <==> 1 <= v <= 6,
{
    if v > 0 {
        NLResult::from_i32(v).ok_or(NLError::Unknown)
    } else if v < 0 {
        match NLError::from_i32(v) {
            Some(e) => Err(e),
            None => Err(NLError::Unknown),
        }
    } else {
        Err(NLError::Unknown)
    }
}

/// Every success is the meaning of its own code.
pub proof fn lemma_result_round_trip(r: NLResult)
    ensures
        1 <= r.code_of() <= 6,
        status_of(r.code_of()) == Ok::<NLResult, NLError>(r),
{
}

/// Every failure is the meaning of its own code. For `Unknown` that code is
/// zero; the others lie between -5 and -1.
pub proof fn lemma_error_round_trip(e: NLError)
    ensures
        -5 <= e.code_of() <= 0,
        e != NLError::Unknown ==> recognized(e.code_of()),
        status_of(e.code_of()) == Err::<NLResult, NLError>(e),
{
}

/// A recognized code is the only recognized code with its meaning: two
/// different codes among 1 to 6 and -5 to -1 never mean the same thing.
pub proof fn lemma_status_injective(a: int, b: int)
    requires
        recognized(a),
        recognized(b),
        status_of(a) == status_of(b),
    ensures
        a == b,
{
}

/// A recognized code means the success or failure that carries its number,
/// never `Unknown`; every other code, zero among them, means `Unknown`.
pub proof fn lemma_status_total(code: int)
    ensures
        1 <= code <= 6 ==> status_of(code) is Ok && status_of(code)->Ok_0.code_of() == code,
        -5 <= code <= -1 ==> status_of(code) is Err && status_of(code)->Err_0.code_of() == code
            && status_of(code)->Err_0 != NLError::Unknown,
        !recognized(code) <==> status_of(code) == Err::<NLResult, NLError>(NLError::Unknown),
{
}

} // verus!
