use cosmic_gemini::crypto::{sha256, sign, verify};
use cosmic_gemini::node_identity::NetworkIdentity;

#[test]
fn derive_is_deterministic() {
    let id1 = NetworkIdentity::derive();
    let id2 = NetworkIdentity::derive();
    assert_eq!(id1.signing_key, id2.signing_key);
    assert_eq!(id1.verifying_key, id2.verifying_key);
    assert_eq!(id1.network_id, id2.network_id);
    assert_eq!(id1.network_id_hex, id2.network_id_hex);
}

#[test]
fn network_id_is_hash_of_pubkey() {
    let id = NetworkIdentity::derive();
    let expected = sha256(&id.verifying_key);
    assert_eq!(id.network_id, expected);
}

#[test]
fn network_id_hex_is_64_chars() {
    let id = NetworkIdentity::derive();
    assert_eq!(id.network_id_hex.len(), 64);
}

#[test]
fn signing_key_can_sign_and_verify() {
    let id = NetworkIdentity::derive();
    let msg = b"bootstrap peer list";
    let sig = sign(&id.signing_key, msg);
    assert!(verify(&id.verifying_key, msg, &sig).is_ok());
}

#[test]
fn bootstrap_onion_pubkey_is_32_bytes() {
    let id = NetworkIdentity::derive();
    assert_eq!(id.bootstrap_onion_pubkey_bytes().len(), 32);
    assert_eq!(id.bootstrap_onion_pubkey_bytes(), &id.verifying_key);
}
