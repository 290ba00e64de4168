use cosmic_gemini::event::{EventPayload, EventType, SignedEvent};
use cosmic_gemini::ledger::{AnomalyStatus, CertificateLedger, RotationType};
use cosmic_gemini::observation::CertObservation;
use cosmic_gemini::time::Timestamp;

fn obs_at(domain: &str, fingerprint: &str, observer: &str, secs: i64) -> CertObservation {
    CertObservation {
        domain: domain.to_string(),
        port: 1965,
        cert_fingerprint: fingerprint.to_string(),
        chain_fingerprints: vec![fingerprint.to_string()],
        issuer: "CN=CA".to_string(),
        subject: format!("CN={}", domain),
        san: vec![domain.to_string()],
        not_before: 1000,
        not_after: 2000,
        observed_at: Timestamp::from_parts(secs, 0).unwrap(),
        observer_id: observer.to_string(),
    }
}

fn obs(domain: &str, fingerprint: &str, observer: &str) -> CertObservation {
    obs_at(domain, fingerprint, observer, 1_700_000_000)
}

#[test]
fn case1_first_observation() {
    let mut ledger = CertificateLedger::new();
    ledger.process_observation(&obs("test.com", "aabb", "node1"));
    let entry = ledger.lookup("test.com").unwrap();
    assert_eq!(entry.consensus_cert.fingerprint, "aabb");
    assert_eq!(entry.consensus_cert.total_obs, 1);
    assert_eq!(entry.consensus_cert.unique_observers, 1);
    assert!(entry.anomalies.is_empty());
}

#[test]
fn case2_matching_consensus() {
    let mut ledger = CertificateLedger::new();
    ledger.process_observation(&obs("test.com", "aabb", "node1"));
    ledger.process_observation(&obs("test.com", "aabb", "node2"));
    let entry = ledger.lookup("test.com").unwrap();
    assert_eq!(entry.consensus_cert.fingerprint, "aabb");
    assert_eq!(entry.consensus_cert.total_obs, 2);
    assert_eq!(entry.consensus_cert.unique_observers, 2);
}

#[test]
fn case3_anomaly_recorded() {
    let mut ledger = CertificateLedger::new();
    ledger.process_observation(&obs("test.com", "aabb", "node1"));
    ledger.process_observation(&obs("test.com", "ccdd", "node2"));
    let entry = ledger.lookup("test.com").unwrap();
    assert_eq!(entry.consensus_cert.fingerprint, "aabb");
    assert_eq!(entry.anomalies.len(), 1);
    assert_eq!(entry.anomalies[0].fingerprint, "ccdd");
    assert_eq!(entry.anomalies[0].observer_count, 1);
}

#[test]
fn case3_anomaly_becomes_consensus() {
    let mut ledger = CertificateLedger::new();
    ledger.process_observation(&obs("test.com", "old", "node1"));
    ledger.process_observation(&obs("test.com", "new", "node2"));
    ledger.process_observation(&obs("test.com", "new", "node3"));
    let entry = ledger.lookup("test.com").unwrap();
    assert_eq!(entry.consensus_cert.fingerprint, "new");
    assert_eq!(entry.history.len(), 1);
    assert_eq!(entry.history[0].fingerprint, "old");
    assert_eq!(entry.history[0].rotation_type, RotationType::Normal);
    assert!(entry.anomalies.iter().all(|a| a.fingerprint != "new"));
}

#[test]
fn multiple_domains_independent() {
    let mut ledger = CertificateLedger::new();
    ledger.process_observation(&obs("a.com", "aa", "node1"));
    ledger.process_observation(&obs("b.com", "bb", "node1"));
    assert_eq!(ledger.domain_count(), 2);
    assert_eq!(ledger.lookup("a.com").unwrap().consensus_cert.fingerprint, "aa");
    assert_eq!(ledger.lookup("b.com").unwrap().consensus_cert.fingerprint, "bb");
}

#[test]
fn empty_ledger_has_no_domains() {
    let ledger = CertificateLedger::new();
    assert_eq!(ledger.domain_count(), 0);
    assert!(ledger.lookup("a.com").is_none());
}

#[test]
fn promotion_takes_anomaly_times_and_counts() {
    let mut ledger = CertificateLedger::new();
    ledger.process_observation(&obs_at("t.com", "old", "n1", 10));
    ledger.process_observation(&obs_at("t.com", "new", "n2", 20));
    ledger.process_observation(&obs_at("t.com", "other", "n3", 25));
    ledger.process_observation(&obs_at("t.com", "new", "n4", 30));
    let e = ledger.lookup("t.com").unwrap();
    assert_eq!(e.consensus_cert.fingerprint, "new");
    assert_eq!(e.consensus_cert.first_seen, 20);
    assert_eq!(e.consensus_cert.last_seen, 30);
    assert_eq!(e.consensus_cert.total_obs, 2);
    assert_eq!(e.consensus_cert.unique_observers, 2);
    assert_eq!(e.history[0].first_seen, 10);
    assert_eq!(e.history[0].last_seen, 10);
    assert_eq!(e.anomalies.len(), 1);
    assert_eq!(e.anomalies[0].fingerprint, "other");
    assert_eq!(e.anomalies[0].status, AnomalyStatus::Active);
}

#[test]
fn anomaly_stays_while_not_a_majority() {
    let mut ledger = CertificateLedger::new();
    for _ in 0..3 {
        ledger.process_observation(&obs("t.com", "good", "n"));
    }
    ledger.process_observation(&obs("t.com", "bad", "n"));
    ledger.process_observation(&obs("t.com", "bad", "n"));
    let e = ledger.lookup("t.com").unwrap();
    // 2 is not more than (3 + 2) / 2 = 2
    assert_eq!(e.consensus_cert.fingerprint, "good");
    assert_eq!(e.anomalies[0].observer_count, 2);
}

#[test]
fn ledger_from_events_uses_only_observation_batches() {
    let ev = |payload: EventPayload, t: EventType| SignedEvent {
        sequence: 0,
        event_type: t,
        payload,
        author: "a".to_string(),
        timestamp: Timestamp::from_parts(0, 0).unwrap(),
        signature: "s".to_string(),
        prev_hash: "p".to_string(),
    };
    let events = vec![
        ev(
            EventPayload::MemberLeave { node_id: "x".to_string() },
            EventType::MemberLeave,
        ),
        ev(
            EventPayload::CertObservationBatch {
                observations: vec![obs("a.com", "aa", "n1"), obs("b.com", "bb", "n1")],
            },
            EventType::CertObservationBatch,
        ),
        ev(
            EventPayload::CertObservationBatch { observations: vec![obs("a.com", "aa", "n2")] },
            EventType::CertObservationBatch,
        ),
    ];
    let ledger = CertificateLedger::compute_from_events(&events);
    assert_eq!(ledger.domain_count(), 2);
    assert_eq!(ledger.lookup("a.com").unwrap().consensus_cert.unique_observers, 2);
    let copy = ledger.clone();
    assert_eq!(copy.lookup("b.com").unwrap().consensus_cert.fingerprint, "bb");
}
