//! The outcome of one authentication attempt and its integer code.

use vstd::prelude::*;

verus! {

/// Code the host framework reads as "authentication accepted".
pub const CODE_SUCCESS: i32 = 0;

/// Code the host framework reads as "permission denied".
pub const CODE_PERMISSION_DENIED: i32 = 7;

/// Code the host framework reads as "authentication information unavailable".
pub const CODE_INFO_UNAVAILABLE: i32 = 12;

/// Code the host framework reads as "user unknown".
pub const CODE_USER_UNKNOWN: i32 = 13;

/// What an authentication attempt came to.
#[derive(Clone, Copy, Debug, PartialEq, Eq, Structural)]
pub enum AuthDecision {
    Success,
    InfoUnavailable,
    UserUnknown,
    PermissionDenied,
}

impl AuthDecision {
    /// The integer the host framework is given for this decision.
    pub open spec fn spec_code(self) -> int {
        match self {
            AuthDecision::Success => 0,
            AuthDecision::PermissionDenied => 7,
            AuthDecision::InfoUnavailable => 12,
            AuthDecision::UserUnknown => 13,
        }
    }

    /// The integer the host framework is given for this decision.
    pub fn code(self) -> (c: i32)
        ensures
            c == self.spec_code(),
    {
        match self {
            AuthDecision::Success => CODE_SUCCESS,
            AuthDecision::PermissionDenied => CODE_PERMISSION_DENIED,
            AuthDecision::InfoUnavailable => CODE_INFO_UNAVAILABLE,
            AuthDecision::UserUnknown => CODE_USER_UNKNOWN,
        }
    }

    /// The decision a host code stands for, if it stands for one.
    pub fn from_code(c: i32) -> (d: Option<AuthDecision>)
        ensures
            match d {
                Some(x) => x.spec_code() == c,
                None => forall|x: AuthDecision| x.spec_code() != c,
            },
    {
        if c == CODE_SUCCESS {
            Some(AuthDecision::Success)
        } else if c == CODE_PERMISSION_DENIED {
            Some(AuthDecision::PermissionDenied)
        } else if c == CODE_INFO_UNAVAILABLE {
            Some(AuthDecision::InfoUnavailable)
        } else if c == CODE_USER_UNKNOWN {
            Some(AuthDecision::UserUnknown)
        } else {
            None
        }
    }
}

} // verus!
