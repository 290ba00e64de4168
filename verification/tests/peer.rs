use cosmic_gemini::peer::PeerList;

#[test]
fn upsert_and_get() {
    let mut list = PeerList::new();
    list.upsert("node1", "addr1.onion");
    assert_eq!(list.count(), 1);
    assert_eq!(list.get("node1").unwrap().onion_address, "addr1.onion");

    // Update existing
    list.upsert("node1", "addr1_new.onion");
    assert_eq!(list.count(), 1);
    assert_eq!(list.get("node1").unwrap().onion_address, "addr1_new.onion");
}

#[test]
fn remove_peer() {
    let mut list = PeerList::new();
    list.upsert("node1", "a.onion");
    list.upsert("node2", "b.onion");
    assert_eq!(list.count(), 2);

    assert!(list.remove("node1"));
    assert_eq!(list.count(), 1);
    assert!(list.get("node1").is_none());

    assert!(!list.remove("nonexistent"));
}

#[test]
fn record_sync() {
    let mut list = PeerList::new();
    list.upsert("node1", "a.onion");
    assert!(list.get("node1").unwrap().last_sync.is_none());

    list.record_sync("node1");
    assert!(list.get("node1").unwrap().last_sync.is_some());
}

#[test]
fn upsert_keeps_first_seen() {
    let mut list = PeerList::new();
    list.upsert("n", "a.onion");
    let first = list.get("n").unwrap().first_seen;
    list.upsert("n", "b.onion");
    let p = list.get("n").unwrap();
    assert_eq!(p.first_seen, first);
    assert!(!p.last_seen.before(&first));
}

#[test]
fn record_sync_of_unknown_peer_changes_nothing() {
    let mut list = PeerList::new();
    list.upsert("n", "a.onion");
    list.record_sync("other");
    assert!(list.get("n").unwrap().last_sync.is_none());
    assert_eq!(list.count(), 1);
}

#[test]
fn peers_keep_their_order() {
    let mut list = PeerList::new();
    list.upsert("a", "1.onion");
    list.upsert("b", "2.onion");
    list.upsert("c", "3.onion");
    list.remove("b");
    assert_eq!(list.peers[0].node_id, "a");
    assert_eq!(list.peers[1].node_id, "c");
}

#[test]
fn get_mut_changes_the_peer_in_place() {
    let mut list = PeerList::new();
    list.upsert("a", "1.onion");
    list.upsert("b", "2.onion");
    if let Some(p) = list.get_mut("b") {
        p.onion_address = "changed.onion".to_string();
    }
    assert_eq!(list.get("b").unwrap().onion_address, "changed.onion");
    assert_eq!(list.get("a").unwrap().onion_address, "1.onion");
    assert!(list.get_mut("missing").is_none());
}
