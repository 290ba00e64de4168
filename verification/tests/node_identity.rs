use cosmic_gemini::crypto::hex_encode;
use cosmic_gemini::error::HydraError;
use cosmic_gemini::node_identity::{NodeIdentity, StoredIdentity};

#[test]
fn generate_has_valid_node_id() {
    let identity = NodeIdentity::generate_new();
    assert_eq!(identity.node_id.len(), 64);
    assert_eq!(identity.node_id, hex_encode(&identity.verifying_key));
}

#[test]
fn sign_verify_roundtrip() {
    let identity = NodeIdentity::generate_new();
    let msg = b"test message";
    let sig = identity.sign(msg);
    assert!(identity.verify(msg, &sig).is_ok());
}

#[test]
fn different_generates_are_different() {
    let id1 = NodeIdentity::generate_new();
    let id2 = NodeIdentity::generate_new();
    assert_ne!(id1.node_id, id2.node_id);
}

#[test]
fn identity_save_and_load_roundtrip() {
    let identity = NodeIdentity::generate_new();
    let stored = identity.to_stored();
    let loaded = NodeIdentity::from_stored(&stored).unwrap();
    assert_eq!(loaded.node_id, identity.node_id);
    assert_eq!(loaded.signing_key, identity.signing_key);
}

#[test]
fn verify_rejects_other_message() {
    let identity = NodeIdentity::generate_new();
    let sig = identity.sign(b"one");
    assert!(matches!(identity.verify(b"two", &sig), Err(HydraError::InvalidSignature)));
}

#[test]
fn from_seed_is_deterministic() {
    let a = NodeIdentity::from_signing_key([7u8; 32]);
    let b = NodeIdentity::from_signing_key([7u8; 32]);
    assert_eq!(a.node_id, b.node_id);
    assert_eq!(a.verifying_key, b.verifying_key);
}

#[test]
fn stored_secret_is_base64() {
    let identity = NodeIdentity::from_signing_key([0u8; 32]);
    let stored = identity.to_stored();
    assert_eq!(stored.secret_key_b64, "AAAAAAAAAAAAAAAAAAAAAAAAAAAAAAAAAAAAAAAAAAA=");
    assert_eq!(stored.node_id, identity.node_id);
}

#[test]
fn stored_wrong_length_is_refused() {
    let stored = StoredIdentity { secret_key_b64: "AAAA".to_string(), node_id: "x".to_string() };
    match NodeIdentity::from_stored(&stored) {
        Err(HydraError::Crypto(m)) => {
            assert_eq!(m, "invalid secret key length: expected 32, got 3")
        }
        other => panic!("unexpected: {:?}", other),
    }
}

#[test]
fn stored_bad_character_is_refused() {
    let stored = StoredIdentity { secret_key_b64: "AA*A".to_string(), node_id: "x".to_string() };
    match NodeIdentity::from_stored(&stored) {
        Err(HydraError::Crypto(m)) => assert_eq!(m, "invalid base64 character: *"),
        other => panic!("unexpected: {:?}", other),
    }
}

#[test]
fn stored_node_id_mismatch_is_refused() {
    let identity = NodeIdentity::from_signing_key([1u8; 32]);
    let mut stored = identity.to_stored();
    stored.node_id = "00".to_string();
    match NodeIdentity::from_stored(&stored) {
        Err(HydraError::Crypto(m)) => {
            assert_eq!(m, "stored node_id does not match derived public key")
        }
        other => panic!("unexpected: {:?}", other),
    }
}
