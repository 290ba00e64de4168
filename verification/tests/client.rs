use cosmic_gemini::client::{parse_header, Error, ProtoError, Status};

#[test]
fn status_try_from() {
    assert_eq!(Status::try_from(10).unwrap(), Status::Input(10));
    assert_eq!(Status::try_from(20).unwrap(), Status::Success(20));
    assert_eq!(Status::try_from(31).unwrap(), Status::Redirect(31));
    assert_eq!(Status::try_from(40).unwrap(), Status::TempFail(40));
    assert_eq!(Status::try_from(51).unwrap(), Status::PermFail(51));
    assert_eq!(Status::try_from(60).unwrap(), Status::CertRequired(60));
    assert!(Status::try_from(0).is_err());
    assert!(Status::try_from(70).is_err());
}

#[test]
fn header_basic_response() {
    let buf = b"20 text/gemini\r\nBasic example response from a dummy server";
    let (status, meta, body) = parse_header(buf).unwrap();
    assert_eq!(status, Status::Success(20));
    assert_eq!(meta, "text/gemini");
    assert_eq!(&buf[body..], b"Basic example response from a dummy server");
}

#[test]
fn header_redirect_and_input() {
    let (status, meta, _) = parse_header(b"31 gemini://gemini.circumlunar.space/\r\nUnexpected body").unwrap();
    assert_eq!(status, Status::Redirect(31));
    assert_eq!(meta, "gemini://gemini.circumlunar.space/");
    let (status, meta, body) = parse_header(b"10 What is your name?\r\n").unwrap();
    assert_eq!(status, Status::Input(10));
    assert_eq!(meta, "What is your name?");
    assert_eq!(body, 23);
}

#[test]
fn header_without_crlf_is_meta_not_found() {
    let res = parse_header(b"20 no crlf in this response at all");
    assert!(matches!(res, Err(Error::InvalidProtocolData(ProtoError::MetaNotFound))));
}

#[test]
fn header_bad_status_and_lossy_meta() {
    assert!(matches!(parse_header(b"99 x\r\n"), Err(Error::InvalidProtocolData(_))));
    assert!(matches!(parse_header(&[0xc3, 0x20, 0x20, b'\r', b'\n']), Err(Error::InvalidUtf8)));
    let (_, meta, _) = parse_header(&[b'2', b'0', b' ', 0xff, b'\r', b'\n']).unwrap();
    assert_eq!(meta, "\u{fffd}");
}

#[test]
fn basic_response() {
    let (status, meta, _) =
        parse_header(b"20 text/gemini\r\nBasic example response from a dummy server").unwrap();
    assert_eq!(status, Status::Success(20));
    assert_eq!(meta, "text/gemini");
}

#[test]
fn redirect_response() {
    let buf = b"31 gemini://gemini.circumlunar.space/\r\nUnexpected body";
    let (status, meta, body) = parse_header(buf).unwrap();
    assert_eq!(status, Status::Redirect(31));
    assert_eq!(meta, "gemini://gemini.circumlunar.space/");
    assert_eq!(&buf[body..], b"Unexpected body");
}

#[test]
fn no_meta_crlf() {
    let res = parse_header(b"20 no crlf in this response at all");
    assert!(res.is_err());
}

#[test]
fn input_status() {
    let (status, meta, _) = parse_header(b"10 What is your name?\r\n").unwrap();
    assert_eq!(status, Status::Input(10));
    assert_eq!(meta, "What is your name?");
}

#[test]
fn errors_read_as_text() {
    assert_eq!(Error::SchemeNotSupported.to_text(), "Only the gemini:// URL scheme is supported");
    assert_eq!(Error::Tls(cosmic_gemini::known_hosts::CertificateError::BadIdentity).to_text(), "TLS error: Certificate has changed (possible MITM)");
    assert_eq!(Error::TooManyRedirects("/x".to_string()).to_text(), "Too many redirections. Last redirect was to /x");
    assert_eq!(Error::InvalidUrl("relative URL without a base".to_string()).to_text(), "Invalid URL: relative URL without a base");
}
