use gxsync::auth::token_from_output;
use gxsync::error::GxsyncError;

#[test]
fn token_is_first_line_trimmed() {
    assert_eq!(token_from_output(b"  eyJ0eXAi.abc  \nsecond line\n").unwrap(), "eyJ0eXAi.abc");
    assert_eq!(token_from_output(b"tok\r\n").unwrap(), "tok");
    assert_eq!(token_from_output(b"tok").unwrap(), "tok");
    assert_eq!(token_from_output(b"\nlater").unwrap(), "");
}

#[test]
fn empty_output_is_an_auth_error() {
    assert!(matches!(token_from_output(b""), Err(GxsyncError::Auth(_))));
}

#[test]
fn non_utf8_output_is_an_auth_error() {
    assert!(matches!(token_from_output(&[0xff, 0xfe, b'\n']), Err(GxsyncError::Auth(_))));
}
