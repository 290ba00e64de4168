use cosmic_gemini::alert::AlertLevel;
use cosmic_gemini::config::HydraConfig;
use cosmic_gemini::event::EventPayload;
use cosmic_gemini::identity::{generate_identity, parse_cert_pem, IdentityConfig};
use cosmic_gemini::ledger::CertificateLedger;
use cosmic_gemini::node::{next_sequence, HydraCommand, HydraNode, HydraNotification, NodeAction};
use cosmic_gemini::node_identity::{NetworkIdentity, NodeIdentity};
use cosmic_gemini::observation::RawCertCapture;
use cosmic_gemini::peer::PeerList;
use cosmic_gemini::time::Timestamp;

fn fresh_node() -> (HydraNode, Vec<NodeAction>) {
    HydraNode::start(
        NodeIdentity::generate_new(),
        NetworkIdentity::derive(),
        HydraConfig::default(),
        "/tmp/hydra-test",
        Vec::new(),
        Vec::new(),
        CertificateLedger::new(),
        PeerList::new(),
    )
    .unwrap()
}

fn capture(host: &str, der: Vec<u8>, secs: i64) -> RawCertCapture {
    RawCertCapture {
        host: host.to_string(),
        port: 1965,
        certs_der: vec![der],
        timestamp: Timestamp::from_parts(secs, 0).unwrap(),
    }
}

fn certificate(name: &str) -> Vec<u8> {
    let mut config = IdentityConfig::default();
    let made = generate_identity(&mut config, name, 30).unwrap();
    parse_cert_pem(&made.cert_pem).unwrap().remove(0)
}

#[test]
fn fresh_node_writes_genesis() {
    let (node, acts) = fresh_node();
    assert_eq!(node.sequence, 1);
    assert_eq!(node.event_log.len(), 1);
    assert!(matches!(node.event_log.events()[0].payload, EventPayload::Genesis { .. }));
    assert_eq!(acts.len(), 2);
    assert!(matches!(&acts[0], NodeAction::AppendEvent(l) if l.starts_with("{\"sequence\":0,")));
    assert!(matches!(&acts[1], NodeAction::Notify(HydraNotification::Started { node_id }) if *node_id == node.identity.node_id));
}

#[test]
fn sequence_continues_after_own_events() {
    let (node, _) = fresh_node();
    let events = node.event_log.events().clone();
    assert_eq!(next_sequence(&events, &node.identity.node_id), Some(1));
    assert_eq!(next_sequence(&events, "someone else"), Some(0));
}

#[test]
fn status_reports_the_node() {
    let (mut node, _) = fresh_node();
    let acts = node.handle_command(HydraCommand::GetStatus);
    match &acts[..] {
        [NodeAction::Notify(HydraNotification::StatusUpdate(s))] => {
            assert_eq!(s.node_id, node.identity.node_id);
            assert_eq!(s.stage, 0);
            assert_eq!(s.event_count, 1);
            assert_eq!(s.peer_count, 0);
            assert_eq!(s.network_id, node.network_identity.network_id_hex);
        }
        other => panic!("unexpected: {:?}", other),
    }
}

#[test]
fn peers_are_added_and_removed() {
    let (mut node, _) = fresh_node();
    let acts = node.handle_command(HydraCommand::AddPeer { onion_address: "p.onion".to_string() });
    assert_eq!(node.peers.count(), 1);
    assert!(matches!(&acts[0], NodeAction::SavePeers));
    assert!(matches!(&acts[1], NodeAction::Notify(HydraNotification::StatusUpdate(s)) if s.stage == 1));
    let id = node.peers.peers[0].node_id.clone();
    assert_eq!(id, cosmic_gemini::crypto::sha256_hex(b"p.onion"));
    node.handle_command(HydraCommand::RemovePeer { node_id: id });
    assert_eq!(node.peers.count(), 0);
}

#[test]
fn toggling_and_shutdown() {
    let (mut node, _) = fresh_node();
    assert!(!node.sync_due());
    let acts = node.handle_command(HydraCommand::ToggleEnabled);
    assert!(node.config.enabled);
    assert!(matches!(&acts[0], NodeAction::SaveConfig));
    assert!(node.handle_command(HydraCommand::ManualSync).is_empty());
    let acts = node.handle_command(HydraCommand::Shutdown);
    assert!(matches!(&acts[..], [NodeAction::SaveLedger, NodeAction::SavePeers, NodeAction::SaveConfig, NodeAction::Stop]));
}

#[test]
fn captures_are_recorded_logged_and_checked() {
    let (mut node, _) = fresh_node();
    let der = certificate("server");
    let acts = node.handle_cert_capture(&capture("a.org", der.clone(), 100));
    assert_eq!(node.observations.len(), 1);
    assert_eq!(node.event_log.len(), 2);
    assert_eq!(node.sequence, 2);
    assert_eq!(node.ledger.domain_count(), 1);
    assert!(matches!(&acts[0], NodeAction::AppendDiary(l) if l.starts_with("{\"domain\":\"a.org\"")));
    assert!(matches!(acts.last(), Some(NodeAction::Notify(HydraNotification::ObservationRecorded { domain })) if domain == "a.org"));
    assert!(node.alerts.is_empty());

    // The same certificate again is confirmed by the diary: no alert.
    let acts = node.handle_cert_capture(&capture("a.org", der, 150));
    assert_eq!(node.observations.len(), 2);
    assert!(node.alerts.is_empty());
    assert_eq!(acts.len(), 4);

    // A different certificate later is a change against the diary.
    let other = certificate("impostor");
    let acts = node.handle_cert_capture(&capture("a.org", other, 200));
    assert_eq!(node.observations.len(), 3);
    assert_eq!(node.alerts.len(), 1);
    assert_eq!(node.alerts[0].level, AlertLevel::NovelDivergence);
    assert!(matches!(&acts[1], NodeAction::Notify(HydraNotification::Alert(a)) if a.level == AlertLevel::NovelDivergence));
    assert_eq!(acts.len(), 5);
}

#[test]
fn empty_capture_is_ignored() {
    let (mut node, _) = fresh_node();
    let c = RawCertCapture {
        host: "a.org".to_string(),
        port: 1965,
        certs_der: vec![],
        timestamp: Timestamp::from_parts(1, 0).unwrap(),
    };
    assert!(node.handle_cert_capture(&c).is_empty());
    assert_eq!(node.event_log.len(), 1);
}
