//! The closed set of refusals that the escrow operations report.

use vstd::prelude::*;

verus! {

/// Why a claim or a refund was refused.
#[derive(Copy, Clone, Debug, PartialEq, Eq, Structural, PartialOrd, Ord)]
pub enum Error {
    /// No escrow is stored under the identifier.
    NotFound,
    /// A refund was asked for before the deadline has passed.
    NotExpiredYet,
    /// A claim was made after the deadline has passed.
    AlreadyExpired,
    /// The candidate secret does not open the hash lock.
    InvalidSignature,
}

impl Error {
    /// The number under which the error is reported to callers outside.
    pub open spec fn spec_code(self) -> u32 {
        match self {
            Error::NotFound => 1,
            Error::NotExpiredYet => 2,
            Error::AlreadyExpired => 3,
            Error::InvalidSignature => 4,
        }
    }

    /// The number under which the error is reported to callers outside.
    #[verifier::when_used_as_spec(spec_code)]
    pub fn code(self) -> (code: u32)
        ensures
            code == self.spec_code(),
            1 <= code <= 4,
    {
        match self {
            Error::NotFound => 1,
            Error::NotExpiredYet => 2,
            Error::AlreadyExpired => 3,
            Error::InvalidSignature => 4,
        }
    }

    /// The error reported under `code`, if there is one.
    pub fn from_code(code: u32) -> (error: Option<Error>)
        ensures
            match error {
                Some(e) => e.spec_code() == code,
                None => code < 1 || code > 4,
            },
    {
        if code == 1 {
            Some(Error::NotFound)
        } else if code == 2 {
            Some(Error::NotExpiredYet)
        } else if code == 3 {
            Some(Error::AlreadyExpired)
        } else if code == 4 {
            Some(Error::InvalidSignature)
        } else {
            None
        }
    }
}

} // verus!
