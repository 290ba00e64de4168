use cosmic_gemini::alert::{check_against_diary, check_observation, AlertLevel, Confidence};
use cosmic_gemini::ledger::CertificateLedger;
use cosmic_gemini::observation::CertObservation;
use cosmic_gemini::time::Timestamp;

fn obs_at(domain: &str, fp: &str, secs: i64) -> CertObservation {
    CertObservation {
        domain: domain.to_string(),
        port: 1965,
        cert_fingerprint: fp.to_string(),
        chain_fingerprints: vec![fp.to_string()],
        issuer: "CN=CA".to_string(),
        subject: format!("CN={}", domain),
        san: vec![domain.to_string()],
        not_before: 1000,
        not_after: 2000,
        observed_at: Timestamp::from_parts(secs, 0).unwrap(),
        observer_id: "me".to_string(),
    }
}

fn obs(domain: &str, fp: &str) -> CertObservation {
    obs_at(domain, fp, 1_700_000_000)
}

#[test]
fn unverified_when_no_data() {
    let ledger = CertificateLedger::new();
    let result = check_observation(&ledger, &obs("unknown.com", "ff"));
    assert_eq!(result.level, AlertLevel::Unverified);
    assert_eq!(result.message, "No network data for unknown.com. Standard TLS trust applies.");
}

#[test]
fn verified_when_matches_consensus() {
    let mut ledger = CertificateLedger::new();
    ledger.process_observation(&obs("test.com", "aabb"));
    ledger.process_observation(&obs("test.com", "aabb"));
    let result = check_observation(&ledger, &obs("test.com", "aabb"));
    assert_eq!(result.level, AlertLevel::Verified);
    assert_eq!(result.observer_count, 2);
    assert_eq!(result.confidence, Confidence { num: 2, den: 1 });
    assert_eq!(result.message, "Certificate matches network consensus. 2 observer(s) confirm.");
}

#[test]
fn novel_divergence_when_unknown_fp() {
    let mut ledger = CertificateLedger::new();
    ledger.process_observation(&obs("test.com", "aabb"));
    let result = check_observation(&ledger, &obs("test.com", "xxxx"));
    assert_eq!(result.level, AlertLevel::NovelDivergence);
}

#[test]
fn targeted_attack_when_few_see_anomaly() {
    let mut ledger = CertificateLedger::new();
    for _ in 0..20 {
        ledger.process_observation(&obs("test.com", "good"));
    }
    ledger.process_observation(&obs("test.com", "evil"));
    let result = check_observation(&ledger, &obs("test.com", "evil"));
    assert_eq!(result.level, AlertLevel::TargetedAttack);
    assert_eq!(result.confidence, Confidence { num: 1, den: 21 });
    assert_eq!(
        result.message,
        "WARNING: The certificate for test.com does not match what 20 other observer(s) are seeing. You may be experiencing a targeted MITM attack."
    );
}

#[test]
fn uncertain_when_significant_minority() {
    let mut ledger = CertificateLedger::new();
    for _ in 0..5 {
        ledger.process_observation(&obs("test.com", "certA"));
    }
    for _ in 0..3 {
        ledger.process_observation(&obs("test.com", "certB"));
    }
    let result = check_observation(&ledger, &obs("test.com", "certB"));
    assert_eq!(result.level, AlertLevel::Uncertain);
    assert_eq!(result.observer_count, 3);
    assert_eq!(result.confidence, Confidence { num: 3, den: 8 });
}

#[test]
fn exactly_a_tenth_is_not_significant() {
    let mut ledger = CertificateLedger::new();
    for _ in 0..9 {
        ledger.process_observation(&obs("t.com", "a"));
    }
    ledger.process_observation(&obs("t.com", "b"));
    let result = check_observation(&ledger, &obs("t.com", "b"));
    assert_eq!(result.level, AlertLevel::TargetedAttack);
}

#[test]
fn novel_divergence_message_shows_sixteen_bytes_of_consensus() {
    let mut ledger = CertificateLedger::new();
    ledger.process_observation(&obs("t.com", "0123456789abcdef0123"));
    let result = check_observation(&ledger, &obs("t.com", "zz"));
    assert_eq!(result.consensus_fingerprint.as_deref(), Some("0123456789abcdef0123"));
    assert!(result.message.ends_with("Consensus fingerprint: 0123456789abcdef"));
    assert_eq!(result.confidence, Confidence { num: 0, den: 1 });
}

#[test]
fn diary_first_visit() {
    let result = check_against_diary(&obs("new.com", "ff"), &[]);
    assert_eq!(result.level, AlertLevel::Unverified);
}

#[test]
fn diary_same_cert() {
    let history = vec![obs("test.com", "same")];
    let result = check_against_diary(&obs("test.com", "same"), &history);
    assert_eq!(result.level, AlertLevel::Verified);
}

#[test]
fn diary_changed_cert() {
    let history = vec![obs("test.com", "old_cert_hash_1234")];
    let result = check_against_diary(&obs("test.com", "new_cert_hash"), &history);
    assert_eq!(result.level, AlertLevel::NovelDivergence);
    assert_eq!(
        result.message,
        "Certificate for test.com has changed since your last visit. Previous: old_cert_hash_12..."
    );
}

#[test]
fn diary_compares_with_most_recent_observation() {
    let history = vec![obs_at("t.com", "newest", 30), obs_at("t.com", "older", 10)];
    let result = check_against_diary(&obs("t.com", "newest"), &history);
    assert_eq!(result.level, AlertLevel::Verified);
    let tie = vec![obs_at("t.com", "first", 30), obs_at("t.com", "second", 30)];
    let result = check_against_diary(&obs("t.com", "second"), &tie);
    assert_eq!(result.level, AlertLevel::Verified);
}
