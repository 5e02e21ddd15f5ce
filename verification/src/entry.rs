//! The three operations the host login framework calls.
//!
//! The host's handle is an opaque token that is never looked into, and its
//! argument list may be absent or empty: every call yields a code.

use vstd::prelude::*;
use crate::decision::AuthDecision;
use crate::world::{authenticate_in, spec_authenticate, CardWorld};

verus! {

/// Setting credentials is not supported: whatever the handle, the flags and
/// the arguments, the answer is "user unknown", code 13.
pub fn pam_sm_setcred(handle: u64, flags: i32, args: Option<&Vec<String>>) -> (code: i32)
    ensures
        code == AuthDecision::UserUnknown.spec_code(),
        code == 13,
{
    AuthDecision::UserUnknown.code()
}

/// Account management is not supported: whatever the handle, the flags and
/// the arguments, the answer is "user unknown", code 13.
pub fn pam_sm_acct_mgmt(handle: u64, flags: i32, args: Option<&Vec<String>>) -> (code: i32)
    ensures
        code == AuthDecision::UserUnknown.spec_code(),
        code == 13,
{
    AuthDecision::UserUnknown.code()
}

/// Authenticates against the card service recorded in `world`: the code of
/// the decision that the attempt against it ends with. The handle, the flags
/// and the arguments have no part in it.
pub fn pam_sm_authenticate(
    handle: u64,
    flags: i32,
    args: Option<&Vec<String>>,
    world: &CardWorld,
) -> (code: i32)
    ensures
        code == spec_authenticate(*world).decision().spec_code(),
        code == 12,
{
    let report = authenticate_in(world);
    report.code()
}

} // verus!
