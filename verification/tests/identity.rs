use cosmic_gemini::identity::{
    bind_host, delete_identity, format_date, generate_identity, identity_from_certificate, validity_dates, get_bindings_for_identity, get_host_binding,
    import_identity, list_identities, parse_cert_pem, parse_key_pem, unbind_host, Identity,
    IdentityConfig,
};
use cosmic_gemini::observation::{CertObservation, RawCertCapture};
use cosmic_gemini::time::Timestamp;

fn ident(id: &str, name: &str) -> Identity {
    Identity {
        id: id.to_string(),
        name: name.to_string(),
        created_at: "2024-01-01T00:00:00+00:00".to_string(),
        expires_at: String::new(),
        common_name: name.to_string(),
        fingerprint: "ff".to_string(),
    }
}

#[test]
fn host_binding() {
    let mut config = IdentityConfig::default();
    config.identities.push(ident("id-1", "Binding Test"));
    bind_host(&mut config, "example.com", "id-1");
    assert_eq!(get_host_binding(&config, "example.com"), Some("id-1".to_string()));
    unbind_host(&mut config, "example.com");
    assert_eq!(get_host_binding(&config, "example.com"), None);
}

#[test]
fn binding_again_replaces() {
    let mut config = IdentityConfig::default();
    bind_host(&mut config, "h.com", "a");
    bind_host(&mut config, "h.com", "b");
    assert_eq!(get_host_binding(&config, "h.com"), Some("b".to_string()));
}

#[test]
fn bindings_for_identity_lists_each_host_once() {
    let mut config = IdentityConfig::default();
    bind_host(&mut config, "a.com", "x");
    bind_host(&mut config, "b.com", "y");
    bind_host(&mut config, "c.com", "x");
    bind_host(&mut config, "a.com", "x");
    let mut hosts = get_bindings_for_identity(&config, "x");
    hosts.sort();
    assert_eq!(hosts, vec!["a.com".to_string(), "c.com".to_string()]);
    assert!(get_bindings_for_identity(&config, "z").is_empty());
}

#[test]
fn delete_identity_drops_it_and_its_bindings() {
    let mut config = IdentityConfig::default();
    config.identities.push(ident("x", "X"));
    config.identities.push(ident("y", "Y"));
    bind_host(&mut config, "a.com", "x");
    bind_host(&mut config, "b.com", "y");
    delete_identity(&mut config, "x");
    let ids: Vec<String> = list_identities(&config).into_iter().map(|i| i.id).collect();
    assert_eq!(ids, vec!["y".to_string()]);
    assert_eq!(get_host_binding(&config, "a.com"), None);
    assert_eq!(get_host_binding(&config, "b.com"), Some("y".to_string()));
}

#[test]
fn generate_and_load_identity() {
    let mut config = IdentityConfig::default();
    let made = generate_identity(&mut config, "Test User", 365).unwrap();
    let id = &made.identity;
    assert!(!id.id.is_empty());
    assert_eq!(id.id.len(), 36);
    assert_eq!(id.name, "Test User");
    assert_eq!(id.common_name, "Test User");
    assert_eq!(id.fingerprint.len(), 64);
    assert_eq!(config.identities.len(), 1);

    let certs = parse_cert_pem(&made.cert_pem).unwrap();
    assert!(!certs.is_empty());
    assert!(parse_key_pem(&made.key_pem).is_ok());
    assert_eq!(id.fingerprint, cosmic_gemini::crypto::sha256_hex(&certs[0]));
}

#[test]
fn generated_certificate_names_its_owner() {
    let mut config = IdentityConfig::default();
    let made = generate_identity(&mut config, "Alice", 10).unwrap();
    let der = parse_cert_pem(&made.cert_pem).unwrap().remove(0);
    let capture = RawCertCapture {
        host: "x".to_string(),
        port: 1965,
        certs_der: vec![der],
        timestamp: cosmic_gemini::time::Timestamp::now(),
    };
    let o = CertObservation::from_raw(&capture, "me").unwrap();
    assert_eq!(o.subject, "CN=Alice");
    assert!(o.not_after > o.not_before);
}

#[test]
fn imported_identity_keeps_its_certificate() {
    let mut config = IdentityConfig::default();
    let made = generate_identity(&mut config, "Orig", 10).unwrap();
    let mut other = IdentityConfig::default();
    let imported = import_identity(&mut other, "Copy", &made.cert_pem, &made.key_pem).unwrap();
    assert_eq!(imported.fingerprint, made.identity.fingerprint);
    assert_eq!(imported.name, "Copy");
    assert_eq!(imported.expires_at, "");
    assert_eq!(other.identities.len(), 1);
}

#[test]
fn import_rejects_missing_key() {
    let mut config = IdentityConfig::default();
    let made = generate_identity(&mut config, "Orig", 10).unwrap();
    let mut other = IdentityConfig::default();
    let r = import_identity(&mut other, "Copy", &made.cert_pem, "no key here");
    assert_eq!(r.unwrap_err(), "No private key found in PEM data");
    assert!(other.identities.is_empty());
    let r = import_identity(&mut other, "Copy", "", &made.key_pem);
    assert_eq!(r.unwrap_err(), "No certificates found in PEM data");
}

#[test]
fn format_date_keeps_the_date_part() {
    assert_eq!(format_date("2024-01-01T00:00:00+00:00"), "2024-01-01");
    assert_eq!(format_date("2024-06-30"), "2024-06-30");
    assert_eq!(format_date(""), "");
}

#[test]
fn validity_dates_give_first_and_last_day() {
    let now = Timestamp::from_parts(1_704_067_200, 0).unwrap(); // 2024-01-01T00:00:00Z
    let (end, first, last) = validity_dates(&now, 31).unwrap();
    assert_eq!(end, Timestamp::from_parts(1_704_067_200 + 31 * 86400, 0).unwrap());
    assert_eq!(first, (2024, 1, 1));
    assert_eq!(last, (2024, 2, 1));
    assert!(validity_dates(&now, u64::MAX).is_none());
}

#[test]
fn identity_from_certificate_reports_or_adds() {
    let created = Timestamp::from_parts(1_704_067_200, 0).unwrap();
    let expires = Timestamp::from_parts(1_704_067_200 + 86400, 0).unwrap();
    let mut config = IdentityConfig::default();
    let r = identity_from_certificate(
        &mut config,
        "id-1".to_string(),
        "Bob",
        &created,
        &expires,
        Err("bad params".to_string()),
        "KEY".to_string(),
    );
    assert_eq!(r.unwrap_err(), "Certificate generation failed: bad params");
    assert!(config.identities.is_empty());

    let made = identity_from_certificate(
        &mut config,
        "id-1".to_string(),
        "Bob",
        &created,
        &expires,
        Ok(("CERT".to_string(), vec![1, 2, 3])),
        "KEY".to_string(),
    )
    .unwrap();
    assert_eq!(made.identity.id, "id-1");
    assert_eq!(made.identity.name, "Bob");
    assert_eq!(made.identity.created_at, "2024-01-01T00:00:00+00:00");
    assert_eq!(made.identity.expires_at, "2024-01-02T00:00:00+00:00");
    assert_eq!(
        made.identity.fingerprint,
        "039058c6f2c0cb492c533b0a4d14ef77cc0f78abccced5287d84a1a2011cfb81"
    );
    assert_eq!(made.cert_pem, "CERT");
    assert_eq!(made.key_pem, "KEY");
    assert_eq!(config.identities.len(), 1);
}
