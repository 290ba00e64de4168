use cosmic_gemini::bootstrap::{
    expect_announce_ack, expect_peers, expect_push_ack, expect_sync_response, respond,
    BootstrapMsg, Reply,
};
use cosmic_gemini::crypto::{generate_keypair, hex_encode, network_id_hex};
use cosmic_gemini::error::HydraError;
use cosmic_gemini::event::{event_hash, genesis_prev_hash, sign_event, EventPayload, SignedEvent};
use cosmic_gemini::peer::PeerList;

fn public_key(seed: &[u8; 32]) -> [u8; 32] {
    cosmic_gemini::node_identity::NodeIdentity::from_signing_key(*seed).verifying_key
}

fn chain(key: &[u8; 32], n: u64) -> Vec<SignedEvent> {
    let mut v: Vec<SignedEvent> = Vec::new();
    let mut prev = genesis_prev_hash();
    for i in 0..n {
        let e = sign_event(
            key,
            i,
            EventPayload::Genesis {
                network_id: network_id_hex(),
                creator_pubkey: hex_encode(&public_key(key)),
                creator_onion: String::new(),
            },
            &prev,
        );
        prev = event_hash(&e);
        v.push(e);
    }
    v
}

#[test]
fn get_peers_is_answered_with_the_peer_list() {
    let mut peers = PeerList::new();
    peers.upsert("n1", "a.onion");
    match respond(&BootstrapMsg::GetPeers, &peers, &[], 1) {
        Some(Reply::Peers { peers: p, stage }) => {
            assert_eq!(p.len(), 1);
            assert_eq!(p[0].onion_address, "a.onion");
            assert_eq!(stage, 1);
        }
        other => panic!("unexpected: {:?}", other),
    }
}

#[test]
fn announce_is_accepted() {
    let msg = BootstrapMsg::Announce { node_id: "abc".to_string(), onion_address: "t.onion".to_string() };
    assert!(matches!(respond(&msg, &PeerList::new(), &[], 0), Some(Reply::AnnounceAck { accepted: true })));
}

#[test]
fn sync_request_gets_later_events() {
    let key = generate_keypair();
    let events = chain(&key, 4);
    let msg = BootstrapMsg::SyncRequest { since_sequence: 1 };
    match respond(&msg, &PeerList::new(), &events, 0) {
        Some(Reply::SyncResponse { events: got }) => {
            assert_eq!(got.len(), 2);
            assert_eq!(got[0].sequence, 2);
            assert_eq!(got[1].sequence, 3);
        }
        other => panic!("unexpected: {:?}", other),
    }
}

#[test]
fn sync_push_is_counted() {
    let key = generate_keypair();
    let msg = BootstrapMsg::SyncPush { events: chain(&key, 3) };
    assert!(matches!(respond(&msg, &PeerList::new(), &[], 0), Some(Reply::SyncPushAck { received_count: 3 })));
}

#[test]
fn replies_are_not_answered() {
    let msg = BootstrapMsg::AnnounceAck { accepted: true };
    assert!(respond(&msg, &PeerList::new(), &[], 0).is_none());
    let msg = BootstrapMsg::SyncPushAck { received_count: 1 };
    assert!(respond(&msg, &PeerList::new(), &[], 0).is_none());
}

#[test]
fn expected_replies_are_taken_apart() {
    assert_eq!(expect_announce_ack(BootstrapMsg::AnnounceAck { accepted: false }).unwrap(), false);
    assert_eq!(expect_push_ack(BootstrapMsg::SyncPushAck { received_count: 7 }).unwrap(), 7);
    assert_eq!(expect_peers(BootstrapMsg::Peers { peers: vec![], stage: 1 }).unwrap().len(), 0);
    assert_eq!(expect_sync_response(BootstrapMsg::SyncResponse { events: vec![] }).unwrap().len(), 0);
}

#[test]
fn unexpected_reply_is_an_error() {
    match expect_peers(BootstrapMsg::AnnounceAck { accepted: true }) {
        Err(HydraError::Transport(m)) => {
            assert_eq!(m, "unexpected response to GetPeers: Discriminant(3)")
        }
        other => panic!("unexpected: {:?}", other),
    }
    match expect_push_ack(BootstrapMsg::GetPeers) {
        Err(HydraError::Transport(m)) => {
            assert_eq!(m, "unexpected response to SyncPush: Discriminant(0)")
        }
        other => panic!("unexpected: {:?}", other),
    }
}
