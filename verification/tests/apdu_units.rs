use dod_pam_hwauth::apdu::{
    ApduCommand, ApduResponse, INS_GET_DATA, INS_SELECT, RESPONSE_CAPACITY,
};
use dod_pam_hwauth::error::{
    connect_error, transmit_error, CardError, StopReason, INSUFFICIENT_BUFFER, NO_SMARTCARD,
    UNKNOWN_READER,
};
use dod_pam_hwauth::decision::AuthDecision;
use dod_pam_hwauth::reader::ReaderName;

#[test]
fn probe_command_bytes() {
    let probe = ApduCommand::probe();
    assert_eq!(probe.as_bytes(), &vec![0x00u8, 0xCA, 0x00, 0x6E]);
    assert_eq!(probe.class(), 0x00);
    assert_eq!(probe.instruction(), INS_GET_DATA);
    assert_eq!(probe.parameters(), (0x00, 0x6E));
}

#[test]
fn select_command_bytes() {
    let aid = vec![0xA0u8, 0x00, 0x00, 0x00, 0x04, 0x10, 0x10];
    let select = ApduCommand::select_application(&aid).unwrap();
    assert_eq!(
        select.as_bytes(),
        &vec![0x00u8, 0xA4, 0x04, 0x00, 0x07, 0xA0, 0x00, 0x00, 0x00, 0x04, 0x10, 0x10]
    );
    assert_eq!(select.class(), 0x00);
    assert_eq!(select.instruction(), INS_SELECT);
    assert_eq!(select.parameters(), (0x04, 0x00));
}

#[test]
fn select_command_length_limits() {
    assert!(ApduCommand::select_application(&Vec::new()).is_none());
    assert!(ApduCommand::select_application(&vec![0x01u8]).is_some());
    let longest = vec![0x5Au8; 255];
    let cmd = ApduCommand::select_application(&longest).unwrap();
    assert_eq!(cmd.as_bytes().len(), 260);
    assert_eq!(cmd.as_bytes()[4], 255);
    assert_eq!(&cmd.as_bytes()[5..], &longest[..]);
    assert!(ApduCommand::select_application(&vec![0x5Au8; 256]).is_none());
}

#[test]
fn command_layout_is_checked() {
    assert!(ApduCommand::from_bytes(Vec::new()).is_none());
    assert!(ApduCommand::from_bytes(vec![0x00, 0xCA, 0x00]).is_none());
    assert!(ApduCommand::from_bytes(vec![0x00, 0xCA, 0x00, 0x6E]).is_some());
    assert!(ApduCommand::from_bytes(vec![0x00, 0xB0, 0x00, 0x00, 0x20]).is_some());
    assert!(ApduCommand::from_bytes(vec![0xA0, 0xA4, 0x00, 0x00, 0x02, 0x7F, 0x10]).is_some());
    assert!(ApduCommand::from_bytes(vec![0xA0, 0xA4, 0x00, 0x00, 0x02, 0x7F, 0x10, 0x00]).is_some());
    assert!(ApduCommand::from_bytes(vec![0xA0, 0xA4, 0x00, 0x00, 0x02, 0x7F]).is_none());
    assert!(ApduCommand::from_bytes(vec![0xA0, 0xA4, 0x00, 0x00, 0x02, 0x7F, 0x10, 0x00, 0x00]).is_none());
    assert!(ApduCommand::from_bytes(vec![0xA0, 0xA4, 0x00, 0x00, 0x00, 0x7F]).is_none());
    let kept = ApduCommand::from_bytes(vec![0x00, 0xB0, 0x00, 0x00, 0x20]).unwrap();
    assert_eq!(kept.as_bytes(), &vec![0x00u8, 0xB0, 0x00, 0x00, 0x20]);
}

#[test]
fn status_only_response_has_empty_body() {
    let response = ApduResponse::from_bytes(vec![0x6A, 0x82]).unwrap();
    assert!(response.has_empty_body());
    assert_eq!(response.body_len(), 0);
    assert_eq!(response.body(), Vec::<u8>::new());
    assert_eq!(response.status_word(), Some((0x6A, 0x82)));
    assert!(response.is_not_found());
    assert_eq!(response.as_bytes(), &vec![0x6Au8, 0x82]);
}

#[test]
fn response_with_data_splits_body_and_status() {
    let response = ApduResponse::from_bytes(vec![0x01, 0x02, 0x03, 0x90, 0x00]).unwrap();
    assert!(!response.has_empty_body());
    assert_eq!(response.body_len(), 3);
    assert_eq!(response.body(), vec![0x01u8, 0x02, 0x03]);
    assert_eq!(response.status_word(), Some((0x90, 0x00)));
    assert!(!response.is_not_found());
}

#[test]
fn short_response_has_no_status_word() {
    let none = ApduResponse::from_bytes(Vec::new()).unwrap();
    assert!(none.has_empty_body());
    assert_eq!(none.body_len(), 0);
    assert_eq!(none.status_word(), None);
    assert!(!none.is_not_found());
    let one = ApduResponse::from_bytes(vec![0x6A]).unwrap();
    assert!(one.has_empty_body());
    assert_eq!(one.body(), Vec::<u8>::new());
    assert_eq!(one.status_word(), None);
}

#[test]
fn response_capacity_is_enforced() {
    assert_eq!(RESPONSE_CAPACITY, 2048);
    let full = ApduResponse::from_bytes(vec![0u8; 2048]).unwrap();
    assert_eq!(full.body_len(), 2046);
    match ApduResponse::from_bytes(vec![0u8; 2049]) {
        Err(e) => assert_eq!(e, CardError::ResponseTooLarge),
        Ok(_) => panic!("an oversized response was accepted"),
    }
}

#[test]
fn platform_codes_are_classified() {
    assert_eq!(NO_SMARTCARD, 0x8010_000C);
    assert_eq!(INSUFFICIENT_BUFFER, 0x8010_0008);
    assert_eq!(UNKNOWN_READER, 0x8010_0009);
    assert_eq!(connect_error(NO_SMARTCARD), CardError::NoCardPresent);
    assert_eq!(connect_error(UNKNOWN_READER), CardError::ConnectFailed);
    assert_eq!(connect_error(INSUFFICIENT_BUFFER), CardError::ConnectFailed);
    assert_eq!(connect_error(0), CardError::ConnectFailed);
    assert_eq!(transmit_error(INSUFFICIENT_BUFFER), CardError::ResponseTooLarge);
    assert_eq!(transmit_error(NO_SMARTCARD), CardError::TransmitFailed);
    assert_eq!(transmit_error(u32::MAX), CardError::TransmitFailed);
}

#[test]
fn every_error_denies_access() {
    let all = [
        CardError::ContextUnavailable,
        CardError::EnumerationFailed,
        CardError::NoCardPresent,
        CardError::ConnectFailed,
        CardError::TransmitFailed,
        CardError::ResponseTooLarge,
    ];
    for e in all {
        assert_eq!(e.decision(), AuthDecision::InfoUnavailable);
        assert_eq!(StopReason::Failed(e).decision(), AuthDecision::InfoUnavailable);
        assert_eq!(StopReason::Failed(e).error(), Some(e));
        assert!(!e.describe().is_empty());
    }
    for r in [
        StopReason::NoReaders,
        StopReason::NoMoreReaders,
        StopReason::BudgetExhausted,
        StopReason::DataReturned,
        StopReason::OutOfTurn,
    ] {
        assert_eq!(r.decision(), AuthDecision::InfoUnavailable);
        assert_eq!(r.error(), None);
    }
    assert_eq!(CardError::NoCardPresent.describe(), "no card in the reader");
    assert_eq!(CardError::ContextUnavailable.describe(), "card service unavailable");
}

#[test]
fn reader_name_keeps_its_bytes() {
    let name = ReaderName::new(b"Yubico YubiKey 00 00".to_vec());
    assert_eq!(name.as_bytes(), &b"Yubico YubiKey 00 00".to_vec());
    let copy = name.duplicate();
    assert_eq!(copy.as_bytes(), name.as_bytes());
}
