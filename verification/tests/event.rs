use cosmic_gemini::crypto::{generate_keypair, hex_encode, network_id_hex};
use cosmic_gemini::error::HydraError;
use cosmic_gemini::event::{
    event_hash, event_to_json, genesis_prev_hash, sign_event, verify_event, EventPayload,
    EventType, SignedEvent,
};
use cosmic_gemini::event_log::EventLog;
use cosmic_gemini::observation::CertObservation;
use cosmic_gemini::sync::{events_to_send, merge_events};
use cosmic_gemini::time::Timestamp;

fn public_key(seed: &[u8; 32]) -> [u8; 32] {
    cosmic_gemini::node_identity::NodeIdentity::from_signing_key(*seed).verifying_key
}

fn genesis(key: &[u8; 32], prev: &str) -> SignedEvent {
    sign_event(
        key,
        0,
        EventPayload::Genesis {
            network_id: network_id_hex(),
            creator_pubkey: hex_encode(&public_key(key)),
            creator_onion: "test.onion".to_string(),
        },
        prev,
    )
}

#[test]
fn sign_and_verify_genesis() {
    let key = generate_keypair();
    let event = genesis(&key, &genesis_prev_hash());
    assert_eq!(event.sequence, 0);
    assert_eq!(event.event_type, EventType::Genesis);
    assert_eq!(event.prev_hash, genesis_prev_hash());
    assert!(verify_event(&event).is_ok());
}

#[test]
fn sign_and_verify_member_join() {
    let key = generate_keypair();
    let payload = EventPayload::MemberJoin {
        node_id: "abcd1234".to_string(),
        onion_address: "peer.onion".to_string(),
    };
    let event = sign_event(&key, 1, payload, "prev_hash_here");
    assert!(verify_event(&event).is_ok());
}

#[test]
fn sign_and_verify_cert_batch() {
    let key = generate_keypair();
    let obs = CertObservation {
        domain: "test.com".to_string(),
        port: 1965,
        cert_fingerprint: "ff00".to_string(),
        chain_fingerprints: vec!["ff00".to_string()],
        issuer: "CN=CA".to_string(),
        subject: "CN=test.com".to_string(),
        san: vec!["test.com".to_string()],
        not_before: 1000,
        not_after: 2000,
        observed_at: Timestamp::now(),
        observer_id: hex_encode(&public_key(&key)),
    };
    let payload = EventPayload::CertObservationBatch { observations: vec![obs] };
    let event = sign_event(&key, 2, payload, "abc123");
    assert!(verify_event(&event).is_ok());
}

#[test]
fn verify_rejects_tampered_event() {
    let key = generate_keypair();
    let payload = EventPayload::Genesis {
        network_id: "test".to_string(),
        creator_pubkey: "pk".to_string(),
        creator_onion: "addr.onion".to_string(),
    };
    let mut event = sign_event(&key, 0, payload, &genesis_prev_hash());
    event.sequence = 99;
    assert!(matches!(verify_event(&event), Err(HydraError::InvalidSignature)));
}

#[test]
fn verify_rejects_wrong_author() {
    let key1 = generate_keypair();
    let key2 = generate_keypair();
    let payload = EventPayload::MemberLeave { node_id: "test".to_string() };
    let mut event = sign_event(&key1, 0, payload, &genesis_prev_hash());
    event.author = hex_encode(&public_key(&key2));
    assert!(verify_event(&event).is_err());
}

#[test]
fn verify_reports_malformed_author_and_signature() {
    let key = generate_keypair();
    let mut event = sign_event(&key, 0, EventPayload::MemberLeave { node_id: "n".to_string() }, "p");
    let good = event.clone();
    event.author = "abcd".to_string();
    match verify_event(&event) {
        Err(HydraError::Crypto(m)) => assert_eq!(m, "invalid pubkey length: expected 32, got 2"),
        other => panic!("unexpected {:?}", other),
    }
    event.author = "xyz".to_string();
    match verify_event(&event) {
        Err(HydraError::Crypto(m)) => assert!(m.starts_with("invalid author pubkey hex: ")),
        other => panic!("unexpected {:?}", other),
    }
    let mut event = good;
    event.signature = "00".to_string();
    match verify_event(&event) {
        Err(HydraError::Crypto(m)) => assert_eq!(m, "invalid signature length: expected 64, got 1"),
        other => panic!("unexpected {:?}", other),
    }
}

#[test]
fn event_hash_deterministic() {
    let key = generate_keypair();
    let payload = EventPayload::Genesis {
        network_id: "net".to_string(),
        creator_pubkey: "pk".to_string(),
        creator_onion: "o.onion".to_string(),
    };
    let event = sign_event(&key, 0, payload, &genesis_prev_hash());
    let h1 = event_hash(&event);
    let h2 = event_hash(&event);
    assert_eq!(h1, h2);
    assert_eq!(h1.len(), 64);
}

#[test]
fn hash_chain_linking() {
    let key = generate_keypair();
    let genesis_event = sign_event(
        &key,
        0,
        EventPayload::Genesis {
            network_id: "net".to_string(),
            creator_pubkey: "pk".to_string(),
            creator_onion: "o.onion".to_string(),
        },
        &genesis_prev_hash(),
    );
    let genesis_hash = event_hash(&genesis_event);
    let event1 = sign_event(
        &key,
        1,
        EventPayload::MemberJoin { node_id: "peer1".to_string(), onion_address: "p1.onion".to_string() },
        &genesis_hash,
    );
    assert_eq!(event1.prev_hash, genesis_hash);
    assert!(verify_event(&event1).is_ok());
}

#[test]
fn event_json_matches_serde_layout() {
    let e = SignedEvent {
        sequence: 7,
        event_type: EventType::MemberJoin,
        payload: EventPayload::MemberJoin {
            node_id: "a\"b".to_string(),
            onion_address: "x\n".to_string(),
        },
        author: "au".to_string(),
        timestamp: Timestamp::from_parts(1_700_000_000, 0).unwrap(),
        signature: "si".to_string(),
        prev_hash: "ph".to_string(),
    };
    assert_eq!(
        event_to_json(&e),
        "{\"sequence\":7,\"event_type\":\"MemberJoin\",\"payload\":{\"MemberJoin\":{\"node_id\":\"a\\\"b\",\"onion_address\":\"x\\n\"}},\"author\":\"au\",\"timestamp\":\"2023-11-14T22:13:20Z\",\"signature\":\"si\",\"prev_hash\":\"ph\"}"
    );
}

#[test]
fn genesis_hash_is_sixty_four_zeros() {
    assert_eq!(genesis_prev_hash(), "0".repeat(64));
}

#[test]
fn append_and_load() {
    let key = generate_keypair();
    let mut log = EventLog::new("/tmp/hydra", Vec::new());
    assert!(log.is_empty());
    let g = genesis(&key, log.last_hash());
    let line = log.append(g.clone()).unwrap();
    assert_eq!(line, event_to_json(&g));
    let j = sign_event(
        &key,
        1,
        EventPayload::MemberJoin { node_id: "peer1".to_string(), onion_address: "p1.onion".to_string() },
        log.last_hash(),
    );
    log.append(j).unwrap();
    assert_eq!(log.len(), 2);
    assert_eq!(log.last_hash(), event_hash(&log.events()[1]));
    let reloaded = EventLog::new("/tmp/hydra", log.events().clone());
    assert_eq!(reloaded.len(), 2);
    assert_eq!(reloaded.last_hash(), log.last_hash());
    assert!(reloaded.verify_chain().is_ok());
    assert_eq!(reloaded.path(), "/tmp/hydra/events.jsonl");
}

#[test]
fn rejects_broken_hash_chain() {
    let key = generate_keypair();
    let mut log = EventLog::new("/tmp/hydra", Vec::new());
    log.append(genesis(&key, &genesis_prev_hash())).unwrap();
    let bad = sign_event(
        &key,
        1,
        EventPayload::MemberJoin { node_id: "peer".to_string(), onion_address: "p.onion".to_string() },
        "wrong_hash",
    );
    assert!(log.append(bad).is_err());
    assert_eq!(log.len(), 1);
}

#[test]
fn verify_chain_passes_for_valid_log() {
    let key = generate_keypair();
    let mut log = EventLog::new("/tmp/hydra", Vec::new());
    log.append(genesis(&key, &genesis_prev_hash())).unwrap();
    let e1 = sign_event(
        &key,
        1,
        EventPayload::MemberJoin { node_id: "p".to_string(), onion_address: "p.onion".to_string() },
        log.last_hash(),
    );
    log.append(e1).unwrap();
    assert!(log.verify_chain().is_ok());
}

#[test]
fn verify_chain_reports_broken_links() {
    let key = generate_keypair();
    let a = genesis(&key, &genesis_prev_hash());
    let b = sign_event(&key, 1, EventPayload::MemberLeave { node_id: "x".to_string() }, "nope");
    let log = EventLog::new("/tmp/hydra", vec![a, b]);
    match log.verify_chain() {
        Err(HydraError::LogIntegrity(m)) => {
            assert!(m.starts_with("hash chain broken at event 1: expected "));
            assert!(m.ends_with(", got nope"));
        }
        other => panic!("unexpected {:?}", other),
    }
}

#[test]
fn events_since_filters_correctly() {
    let key = generate_keypair();
    let mut log = EventLog::new("/tmp/hydra", Vec::new());
    log.append(genesis(&key, &genesis_prev_hash())).unwrap();
    for seq in 1..3u64 {
        let e = sign_event(
            &key,
            seq,
            EventPayload::MemberJoin { node_id: format!("n{}", seq), onion_address: "a.onion".to_string() },
            log.last_hash(),
        );
        log.append(e).unwrap();
    }
    assert_eq!(log.events_since(0).len(), 2);
    assert_eq!(log.events_since(1).len(), 1);
    assert_eq!(log.events_since(5).len(), 0);
}

#[test]
fn empty_log_verify_chain() {
    let log = EventLog::new("/tmp/hydra", Vec::new());
    assert!(log.verify_chain().is_ok());
    assert_eq!(log.last_hash(), genesis_prev_hash());
}

#[test]
fn merge_deduplicates() {
    let key = generate_keypair();
    let evt = genesis(&key, &genesis_prev_hash());
    let local = [evt.clone()];
    let remote = [evt];
    let merged = merge_events(&local, &remote).unwrap();
    assert_eq!(merged.len(), 1);
}

#[test]
fn merge_combines_different_events() {
    let key1 = generate_keypair();
    let key2 = generate_keypair();
    let evt1 = genesis(&key1, &genesis_prev_hash());
    let evt2 = sign_event(
        &key2,
        0,
        EventPayload::MemberJoin { node_id: "peer".to_string(), onion_address: "p.onion".to_string() },
        &genesis_prev_hash(),
    );
    let local = [evt1];
    let remote = [evt2];
    let merged = merge_events(&local, &remote).unwrap();
    assert_eq!(merged.len(), 2);
}

#[test]
fn merge_sorts_by_timestamp() {
    let key = generate_keypair();
    let mut evt1 = genesis(&key, &genesis_prev_hash());
    let mut evt2 = sign_event(
        &key,
        1,
        EventPayload::MemberJoin { node_id: "p".to_string(), onion_address: "p.onion".to_string() },
        &genesis_prev_hash(),
    );
    // local events need no valid signature: give them fixed times
    evt1.timestamp = Timestamp::from_parts(100, 0).unwrap();
    evt2.timestamp = Timestamp::from_parts(200, 0).unwrap();
    let local = [evt2.clone(), evt1.clone()];
    let merged = merge_events(&local, &[]).unwrap();
    assert_eq!(merged.len(), 2);
    assert_eq!(merged[0].sequence, 0);
    assert_eq!(merged[1].sequence, 1);
}

#[test]
fn merge_rejects_invalid_signature() {
    let key = generate_keypair();
    let mut evt = genesis(&key, &genesis_prev_hash());
    evt.sequence = 99;
    let remote = [evt];
    let result = merge_events(&[], &remote);
    match result {
        Err(HydraError::LogIntegrity(m)) => {
            assert!(m.starts_with("invalid remote event (seq=99, author="));
            assert!(m.ends_with("): invalid event signature"));
        }
        _ => panic!("expected an integrity error"),
    }
}

#[test]
fn events_to_send_finds_missing() {
    let key = generate_keypair();
    let evt1 = genesis(&key, &genesis_prev_hash());
    let evt2 = sign_event(
        &key,
        1,
        EventPayload::MemberJoin { node_id: "x".to_string(), onion_address: "x.onion".to_string() },
        &genesis_prev_hash(),
    );
    let local = vec![evt1.clone(), evt2.clone()];
    let to_send = events_to_send(&local, &[evt1]);
    assert_eq!(to_send.len(), 1);
    assert_eq!(to_send[0].sequence, 1);
}

#[test]
fn merge_keeps_each_event_once_in_order() {
    let key = generate_keypair();
    let mut a = genesis(&key, &genesis_prev_hash());
    let mut b = sign_event(
        &key,
        1,
        EventPayload::MemberJoin { node_id: "b".to_string(), onion_address: "b.onion".to_string() },
        &genesis_prev_hash(),
    );
    let mut c = sign_event(
        &key,
        2,
        EventPayload::MemberJoin { node_id: "c".to_string(), onion_address: "c.onion".to_string() },
        &genesis_prev_hash(),
    );
    a.timestamp = Timestamp::from_parts(300, 0).unwrap();
    b.timestamp = Timestamp::from_parts(100, 0).unwrap();
    c.timestamp = Timestamp::from_parts(200, 0).unwrap();
    let local = [a.clone(), b.clone(), a.clone(), c.clone(), b.clone()];
    let merged = merge_events(&local, &[]).unwrap();
    let seqs: Vec<u64> = merged.iter().map(|e| e.sequence).collect();
    assert_eq!(seqs, vec![1, 2, 0]);
}

#[test]
fn peer_holds_all_our_events_after_merging_what_we_send() {
    let key = generate_keypair();
    let a = genesis(&key, &genesis_prev_hash());
    let b = sign_event(
        &key,
        1,
        EventPayload::MemberJoin { node_id: "b".to_string(), onion_address: "b.onion".to_string() },
        &genesis_prev_hash(),
    );
    let local = vec![a.clone(), b.clone()];
    let remote = vec![b.clone()];
    let sent: Vec<_> = events_to_send(&local, &remote).into_iter().cloned().collect();
    assert_eq!(sent.len(), 1);
    let merged = merge_events(&remote, &sent).unwrap();
    assert_eq!(merged.len(), 2);
    let mut seqs: Vec<u64> = merged.iter().map(|e| e.sequence).collect();
    seqs.sort();
    assert_eq!(seqs, vec![0, 1]);
}

#[test]
fn verify_chain_rejects_falling_sequence() {
    let key = generate_keypair();
    let mut log = EventLog::new("/tmp/hydra", Vec::new());
    let a = sign_event(
        &key,
        1,
        EventPayload::MemberJoin { node_id: "a".to_string(), onion_address: "a.onion".to_string() },
        &genesis_prev_hash(),
    );
    log.append(a).unwrap();
    let b = sign_event(
        &key,
        0,
        EventPayload::MemberJoin { node_id: "b".to_string(), onion_address: "b.onion".to_string() },
        log.last_hash(),
    );
    log.append(b).unwrap();
    match log.verify_chain() {
        Err(HydraError::LogIntegrity(m)) => {
            assert_eq!(m, "sequence not increasing at event 1: author's previous sequence 1, got 0");
        }
        other => panic!("unexpected {:?}", other),
    }
}
