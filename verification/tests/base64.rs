use cosmic_gemini::base64::{base64_decode, base64_encode};
use cosmic_gemini::error::HydraError;

#[test]
fn base64_roundtrip() {
    let data = b"Hello, HYDRA!";
    let encoded = base64_encode(data);
    let decoded = base64_decode(&encoded).unwrap();
    assert_eq!(decoded, data);
}

#[test]
fn base64_roundtrip_32_bytes() {
    let data: [u8; 32] = [
        0x00, 0x01, 0x02, 0x03, 0x04, 0x05, 0x06, 0x07,
        0x08, 0x09, 0x0a, 0x0b, 0x0c, 0x0d, 0x0e, 0x0f,
        0x10, 0x11, 0x12, 0x13, 0x14, 0x15, 0x16, 0x17,
        0x18, 0x19, 0x1a, 0x1b, 0x1c, 0x1d, 0x1e, 0x1f,
    ];
    let encoded = base64_encode(&data);
    let decoded = base64_decode(&encoded).unwrap();
    assert_eq!(decoded, data);
}

#[test]
fn base64_known_vectors() {
    assert_eq!(base64_encode(b""), "");
    assert_eq!(base64_encode(b"f"), "Zg==");
    assert_eq!(base64_encode(b"fo"), "Zm8=");
    assert_eq!(base64_encode(b"foo"), "Zm9v");
    assert_eq!(base64_encode(b"foobar"), "Zm9vYmFy");
    assert_eq!(base64_encode(&[0xfb, 0xff]), "+/8=");
    assert_eq!(base64_decode("Zm9vYg").unwrap(), b"foob");
}

#[test]
fn base64_invalid_character() {
    match base64_decode("Zm9v!") {
        Err(HydraError::Crypto(m)) => assert_eq!(m, "invalid base64 character: !"),
        _ => panic!("expected a crypto error"),
    }
}
