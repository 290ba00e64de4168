use cosmic_gemini::client::{Error, InvalidStatus, ProtoError};
use cosmic_gemini::misfin::{misfin_request, parse_recipient_host, parse_response, response_readable, DEFAULT_PORT};

#[test]
fn parse_recipient_simple() {
    let (host, port) = parse_recipient_host("user@example.com").unwrap();
    assert_eq!(host, "example.com");
    assert_eq!(port, DEFAULT_PORT);
}

#[test]
fn parse_recipient_with_port() {
    let (host, port) = parse_recipient_host("user@example.com:2000").unwrap();
    assert_eq!(host, "example.com");
    assert_eq!(port, 2000);
}

#[test]
fn parse_response_success() {
    let resp = parse_response(b"20 Message delivered\r\n").unwrap();
    assert_eq!(resp.status, 20);
    assert_eq!(resp.meta, "Message delivered");
}

#[test]
fn parse_response_error() {
    let resp = parse_response(b"50 User not found\r\n").unwrap();
    assert_eq!(resp.status, 50);
    assert_eq!(resp.meta, "User not found");
}

#[test]
fn recipient_without_at_is_invalid_host() {
    assert!(matches!(parse_recipient_host("example.com"), Err(Error::InvalidHost)));
}

#[test]
fn recipient_with_bad_port_is_invalid_host() {
    assert!(matches!(parse_recipient_host("u@h:99999"), Err(Error::InvalidHost)));
    assert!(matches!(parse_recipient_host("u@h:"), Err(Error::InvalidHost)));
}

#[test]
fn recipient_port_uses_last_colon_and_accepts_plus_sign() {
    let (host, port) = parse_recipient_host("u@[::1]:+7").unwrap();
    assert_eq!(host, "[::1]");
    assert_eq!(port, 7);
    assert_eq!(DEFAULT_PORT, 1958);
}

#[test]
fn response_without_newline_and_short_lines() {
    let resp = parse_response(b"31 moved").unwrap();
    assert_eq!(resp.status, 31);
    assert_eq!(resp.meta, "moved");
    let resp = parse_response(b"20 \r\n").unwrap();
    assert_eq!(resp.meta, "");
    assert!(matches!(
        parse_response(b"2\r\n"),
        Err(Error::InvalidProtocolData(ProtoError::MetaNotFound))
    ));
    assert!(matches!(
        parse_response(b"xx ok\r\n"),
        Err(Error::InvalidProtocolData(ProtoError::InvalidStatus(InvalidStatus)))
    ));
    assert!(matches!(parse_response(&[0xff, 0x32, 0x30]), Err(Error::InvalidUtf8)));
}

#[test]
fn request_line_format() {
    assert_eq!(misfin_request("a@b", "hi there"), "misfin://a@b hi there\r\n");
}

#[test]
fn readable_replies() {
    assert!(response_readable(b"20 ok\r\n"));
    assert!(response_readable(&[0xff, 0xfe]));
    assert!(!response_readable("20é".as_bytes()));
    assert!(!response_readable("2é ok".as_bytes()));
    assert!(response_readable("xyé".as_bytes()));
}
