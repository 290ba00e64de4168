use cosmic_gemini::crypto::sha256_hex;
use cosmic_gemini::known_hosts::{
    known_hosts_text, parse_known_hosts, validate, CertificateError, KnownHostsMap, KnownHostsRepo,
};

#[test]
fn tofu_first_visit() {
    let mut repo = KnownHostsMap::new();
    let cert = b"fake-cert-bytes";
    assert!(validate(&mut repo, "example.com", cert).is_ok());
    assert!(repo.get("example.com").is_some());
}

#[test]
fn tofu_same_cert() {
    let mut repo = KnownHostsMap::new();
    let cert = b"fake-cert-bytes";
    validate(&mut repo, "example.com", cert).unwrap();
    assert!(validate(&mut repo, "example.com", cert).is_ok());
}

#[test]
fn tofu_changed_cert() {
    let mut repo = KnownHostsMap::new();
    validate(&mut repo, "example.com", b"cert-v1").unwrap();
    let result = validate(&mut repo, "example.com", b"cert-v2");
    assert_eq!(result, Err(CertificateError::BadIdentity));
}

#[test]
fn tofu_pins_the_sha256_fingerprint() {
    let mut repo = KnownHostsMap::new();
    validate(&mut repo, "a.example", b"cert").unwrap();
    let pinned = repo.get("a.example").unwrap().to_string();
    assert_eq!(pinned, sha256_hex(b"cert"));
    assert_eq!(pinned, "06298432e8066b29e2223bcc23aa9504b56ae508fabf3435508869b9c3190e22");
    assert_eq!(pinned.len(), 64);
}

#[test]
fn pins_are_replaced_and_removed() {
    let mut repo = KnownHostsMap::new();
    assert!(repo.insert("h", "one"));
    assert!(!repo.insert("h", "two"));
    assert_eq!(repo.get("h"), Some("two"));
    assert_eq!(repo.values().len(), 1);
    assert!(repo.remove("h"));
    assert!(!repo.remove("h"));
    assert_eq!(repo.get("h"), None);
}

#[test]
fn known_hosts_file_text_is_read_line_by_line() {
    let m = parse_known_hosts("a.com aaaa\nb.com bbbb extra\nnospace\n c.com cccc\na.com newer\n");
    assert_eq!(m.get("a.com"), Some("newer"));
    assert_eq!(m.get("b.com"), Some("bbbb"));
    assert_eq!(m.get("nospace"), None);
    assert_eq!(m.get("c.com"), None);
    assert_eq!(m.values().len(), 2);
}

#[test]
fn known_hosts_text_reads_back() {
    let mut hosts = KnownHostsMap::new();
    hosts.insert("a.org", "aa11");
    hosts.insert("b.org", "bb22");
    let text = known_hosts_text(&hosts);
    assert_eq!(text.lines().count(), 2);
    assert!(text.contains("a.org aa11\n"));
    assert!(text.contains("b.org bb22\n"));
    let back = parse_known_hosts(&text);
    assert_eq!(back.get("a.org"), Some("aa11"));
    assert_eq!(back.get("b.org"), Some("bb22"));
    assert_eq!(back.values().len(), 2);
    assert_eq!(known_hosts_text(&KnownHostsMap::new()), "");
}
