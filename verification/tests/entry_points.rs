use dod_pam_hwauth::decision::{
    AuthDecision, CODE_INFO_UNAVAILABLE, CODE_PERMISSION_DENIED, CODE_SUCCESS, CODE_USER_UNKNOWN,
};
use dod_pam_hwauth::entry::{pam_sm_acct_mgmt, pam_sm_authenticate, pam_sm_setcred};
use dod_pam_hwauth::world::CardWorld;

const NO_SERVICE: u32 = 0x8010_001D;

#[test]
fn test_auth_withbad_data() {
    let r = pam_sm_setcred(0, 0, None);
    assert_eq!(r, CODE_USER_UNKNOWN);

    let r = pam_sm_acct_mgmt(0, 0, None);
    assert_eq!(r, CODE_USER_UNKNOWN);

    let r = pam_sm_authenticate(0, 0, None, &CardWorld::unreachable(NO_SERVICE));
    assert_eq!(r, CODE_INFO_UNAVAILABLE);
}

#[test]
fn stubs_ignore_their_arguments() {
    let args = vec![String::from("debug"), String::from("")];
    let empty: Vec<String> = Vec::new();
    for flags in [0, 1, 2, 4, 8, -1, i32::MIN, i32::MAX] {
        for handle in [0u64, 1, u64::MAX] {
            assert_eq!(pam_sm_setcred(handle, flags, None), 13);
            assert_eq!(pam_sm_setcred(handle, flags, Some(&args)), 13);
            assert_eq!(pam_sm_setcred(handle, flags, Some(&empty)), 13);
            assert_eq!(pam_sm_acct_mgmt(handle, flags, None), 13);
            assert_eq!(pam_sm_acct_mgmt(handle, flags, Some(&args)), 13);
            assert_eq!(pam_sm_acct_mgmt(handle, flags, Some(&empty)), 13);
        }
    }
}

#[test]
fn authenticate_ignores_host_arguments() {
    let args = vec![String::from("try_first_pass")];
    let world = CardWorld::with_readers(Vec::new());
    assert_eq!(pam_sm_authenticate(7, 0x1, Some(&args), &world), 12);
    assert_eq!(pam_sm_authenticate(0, 0, None, &world), 12);
}

#[test]
fn decision_codes_are_fixed() {
    assert_eq!(AuthDecision::Success.code(), 0);
    assert_eq!(AuthDecision::PermissionDenied.code(), 7);
    assert_eq!(AuthDecision::InfoUnavailable.code(), 12);
    assert_eq!(AuthDecision::UserUnknown.code(), 13);
    assert_eq!(CODE_SUCCESS, 0);
    assert_eq!(CODE_PERMISSION_DENIED, 7);
    assert_eq!(CODE_INFO_UNAVAILABLE, 12);
    assert_eq!(CODE_USER_UNKNOWN, 13);
}

#[test]
fn decision_from_code_round_trips() {
    for d in [
        AuthDecision::Success,
        AuthDecision::PermissionDenied,
        AuthDecision::InfoUnavailable,
        AuthDecision::UserUnknown,
    ] {
        assert_eq!(AuthDecision::from_code(d.code()), Some(d));
    }
    assert_eq!(AuthDecision::from_code(1), None);
    assert_eq!(AuthDecision::from_code(-1), None);
    assert_eq!(AuthDecision::from_code(14), None);
}
