use cosmic_gemini::observation::{dns_names, AltName, SubjectAltNames};
use cosmic_gemini::crypto::sha256_hex;
use cosmic_gemini::error::HydraError;
use cosmic_gemini::observation::{CertObservation, ObservationDiary, RawCertCapture};
use cosmic_gemini::time::Timestamp;

fn make_observation(domain: &str, fingerprint: &str, secs: i64) -> CertObservation {
    CertObservation {
        domain: domain.to_string(),
        port: 1965,
        cert_fingerprint: fingerprint.to_string(),
        chain_fingerprints: vec![fingerprint.to_string()],
        issuer: "CN=Test CA".to_string(),
        subject: format!("CN={}", domain),
        san: vec![domain.to_string()],
        not_before: 1000000,
        not_after: 2000000,
        observed_at: Timestamp::from_parts(secs, 0).unwrap(),
        observer_id: "test-node-id".to_string(),
    }
}

#[test]
fn diary_get_for_domain() {
    let diary = ObservationDiary::new("/tmp/diary");
    let all = vec![
        make_observation("a.com", "11", 1),
        make_observation("b.com", "22", 2),
        make_observation("a.com", "33", 3),
    ];
    assert_eq!(diary.get_for_domain(&all, "a.com").len(), 2);
    assert_eq!(diary.get_for_domain(&all, "b.com").len(), 1);
    assert_eq!(diary.get_for_domain(&all, "c.com").len(), 0);
}

#[test]
fn diary_latest_for_domain() {
    let diary = ObservationDiary::new("/tmp/diary");
    let all = vec![make_observation("a.com", "old", 100), make_observation("a.com", "new", 200)];
    let latest = diary.latest_for_domain(&all, "a.com").unwrap();
    assert_eq!(latest.cert_fingerprint, "new");
}

#[test]
fn latest_keeps_first_of_equal_times() {
    let diary = ObservationDiary::new("/tmp/diary");
    let all = vec![
        make_observation("a.com", "first", 100),
        make_observation("b.com", "later", 300),
        make_observation("a.com", "second", 100),
    ];
    assert_eq!(diary.latest_for_domain(&all, "a.com").unwrap().cert_fingerprint, "first");
    assert!(diary.latest_for_domain(&all, "c.com").is_none());
}

#[test]
fn diary_count() {
    let diary = ObservationDiary::new("/tmp/diary");
    assert_eq!(diary.count(&[]), 0);
    assert_eq!(diary.count(&[make_observation("a.com", "1", 1)]), 1);
}

#[test]
fn diary_line_is_json() {
    let diary = ObservationDiary::new("/tmp/diary");
    let line = diary.append(&make_observation("test.com", "ff00", 0));
    assert!(line.starts_with("{\"domain\":\"test.com\",\"port\":1965,\"cert_fingerprint\":\"ff00\""));
    assert!(line.contains("\"observed_at\":\"1970-01-01T00:00:00Z\""));
    assert!(line.ends_with("}\n"));
}

#[test]
fn diary_file_is_in_data_dir() {
    let diary = ObservationDiary::new("/data/hydra");
    assert_eq!(diary.path, "/data/hydra/observations.jsonl");
}

#[test]
fn capture_without_certificates_is_refused() {
    let capture = RawCertCapture {
        host: "x.com".to_string(),
        port: 1965,
        certs_der: vec![],
        timestamp: Timestamp::from_parts(5, 0).unwrap(),
    };
    match CertObservation::from_raw(&capture, "me") {
        Err(HydraError::Crypto(m)) => assert_eq!(m, "no certificates in capture"),
        other => panic!("unexpected: {:?}", other),
    }
}

#[test]
fn unparsable_certificate_gives_fallback_fields() {
    let leaf = vec![1u8, 2, 3];
    let other = vec![4u8, 5];
    let capture = RawCertCapture {
        host: "x.com".to_string(),
        port: 1966,
        certs_der: vec![leaf.clone(), other.clone()],
        timestamp: Timestamp::from_parts(5, 0).unwrap(),
    };
    let o = CertObservation::from_raw(&capture, "me").unwrap();
    assert_eq!(o.domain, "x.com");
    assert_eq!(o.port, 1966);
    assert_eq!(o.cert_fingerprint, sha256_hex(&leaf));
    assert_eq!(o.chain_fingerprints, vec![sha256_hex(&leaf), sha256_hex(&other)]);
    assert_eq!(o.issuer, "");
    assert_eq!(o.subject, "");
    assert!(o.san.is_empty());
    assert_eq!(o.not_before, 0);
    assert_eq!(o.not_after, 0);
    assert_eq!(o.observer_id, "me");
}

#[test]
fn only_dns_names_are_recorded() {
    let names = SubjectAltNames::Names(vec![
        AltName::DnsName("a.example".to_string()),
        AltName::Rfc822Name("me@example".to_string()),
        AltName::IpAddress(vec![127, 0, 0, 1]),
        AltName::Uri("gemini://b.example/".to_string()),
        AltName::DnsName("b.example".to_string()),
        AltName::DirectoryName,
    ]);
    assert_eq!(dns_names(&names), vec!["a.example".to_string(), "b.example".to_string()]);
    assert!(dns_names(&SubjectAltNames::Missing).is_empty());
    assert!(dns_names(&SubjectAltNames::Malformed).is_empty());
}
