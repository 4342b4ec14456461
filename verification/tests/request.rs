use gskkserv::request::RequestCode;

#[test]
fn the_five_codes_are_recognised() {
    assert_eq!(RequestCode::from(b'0'), RequestCode::Disconnect);
    assert_eq!(RequestCode::from(b'1'), RequestCode::Convert);
    assert_eq!(RequestCode::from(b'2'), RequestCode::Version);
    assert_eq!(RequestCode::from(b'3'), RequestCode::Name);
    assert_eq!(RequestCode::from(b'4'), RequestCode::Completion);
}

#[test]
fn every_other_byte_is_invalid_and_kept() {
    let mut byte: u8 = 0;
    loop {
        let code = RequestCode::from(byte);
        if (b'0'..=b'4').contains(&byte) {
            assert!(!matches!(code, RequestCode::Invalid(_)));
        } else {
            assert_eq!(code, RequestCode::Invalid(byte));
        }
        if byte == 255 {
            break;
        }
        byte += 1;
    }
}

#[test]
fn neighbours_of_the_codes_are_invalid() {
    assert_eq!(RequestCode::from(b'/'), RequestCode::Invalid(0x2f));
    assert_eq!(RequestCode::from(b'5'), RequestCode::Invalid(0x35));
    assert_eq!(RequestCode::from(0), RequestCode::Invalid(0));
    assert_eq!(RequestCode::from(1), RequestCode::Invalid(1));
    assert_eq!(RequestCode::from(b'\n'), RequestCode::Invalid(0x0a));
    assert_eq!(RequestCode::from(255), RequestCode::Invalid(255));
}
