use cosmic_gemini::client::Error;
use cosmic_gemini::titan::{prepare_upload, TitanRequest};

fn req(url: &str, token: Option<&str>) -> TitanRequest {
    TitanRequest {
        url: url.to_string(),
        mime: "text/gemini".to_string(),
        token: token.map(|t| t.to_string()),
        payload: b"hello".to_vec(),
    }
}

#[test]
fn upload_request_line() {
    let u = prepare_upload(&req("titan://example.com/path/file.gmi", Some("secret"))).unwrap();
    assert_eq!(u.host, "example.com");
    assert_eq!(u.port, 1965);
    assert_eq!(u.request_line, "titan://example.com/path/file.gmi;mime=text/gemini;size=5;token=secret");
    assert_eq!(u.bytes, b"titan://example.com/path/file.gmi;mime=text/gemini;size=5;token=secret\r\nhello".to_vec());
}

#[test]
fn upload_port_and_empty_token() {
    let u = prepare_upload(&req("titan://example.com:2000/f", Some(""))).unwrap();
    assert_eq!(u.port, 2000);
    assert_eq!(u.request_line, "titan://example.com:2000/f;mime=text/gemini;size=5");
}

#[test]
fn upload_rejects_other_schemes_and_bad_urls() {
    assert!(matches!(prepare_upload(&req("gemini://example.com/", None)), Err(Error::SchemeNotSupported)));
    assert!(matches!(prepare_upload(&req("no url here", None)), Err(Error::InvalidUrl(_))));
}
