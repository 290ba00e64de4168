use cosmic_gemini::crypto::{
    derive_network_seed, derive_network_signing_key, derive_network_verifying_key, generate_keypair,
    hex_encode, network_id, network_id_hex, sha256, sha256_hex, sign,
    verify,
};

fn public_key(seed: &[u8; 32]) -> [u8; 32] {
    cosmic_gemini::node_identity::NodeIdentity::from_signing_key(*seed).verifying_key
}

#[test]
fn keypair_sign_verify_roundtrip() {
    let key = generate_keypair();
    let msg = b"hello hydra";
    let sig = sign(&key, msg);
    assert!(verify(&public_key(&key), msg, &sig).is_ok());
}

#[test]
fn verify_rejects_wrong_message() {
    let key = generate_keypair();
    let sig = sign(&key, b"correct message");
    assert!(verify(&public_key(&key), b"wrong message", &sig).is_err());
}

#[test]
fn verify_rejects_wrong_key() {
    let key1 = generate_keypair();
    let key2 = generate_keypair();
    let sig = sign(&key1, b"message");
    assert!(verify(&public_key(&key2), b"message", &sig).is_err());
}

#[test]
fn sha256_hex_deterministic() {
    let hash1 = sha256_hex(b"test data");
    let hash2 = sha256_hex(b"test data");
    assert_eq!(hash1, hash2);
    assert_eq!(hash1.len(), 64);
}

#[test]
fn sha256_known_vectors() {
    assert_eq!(
        sha256_hex(b""),
        "e3b0c44298fc1c149afbf4c8996fb92427ae41e4649b934ca495991b7852b855"
    );
    assert_eq!(
        sha256_hex(b"abc"),
        "ba7816bf8f01cfea414140de5dae2223b00361a396177a9cb410ff61f20015ad"
    );
    assert_eq!(sha256(b"abc")[0], 0xba);
}

#[test]
fn hex_encode_and_decode() {
    assert_eq!(hex_encode(&[0x00, 0x0f, 0xa0, 0xff]), "000fa0ff");
}

#[test]
fn network_seed_deterministic() {
    let seed1 = derive_network_seed();
    let seed2 = derive_network_seed();
    assert_eq!(seed1, seed2);
}

#[test]
fn network_signing_key_deterministic() {
    let key1 = derive_network_signing_key();
    let key2 = derive_network_signing_key();
    assert_eq!(key1, key2);
}

#[test]
fn network_verifying_key_deterministic() {
    let pk1 = derive_network_verifying_key();
    let pk2 = derive_network_verifying_key();
    assert_eq!(pk1, pk2);
}

#[test]
fn network_id_deterministic() {
    let id1 = network_id_hex();
    let id2 = network_id_hex();
    assert_eq!(id1, id2);
    assert_eq!(id1.len(), 64);
    assert_eq!(id1, hex_encode(&network_id()));
    assert_eq!(network_id(), sha256(&derive_network_verifying_key()));
}

#[test]
fn network_key_can_sign_and_verify() {
    let sk = derive_network_signing_key();
    let pk = derive_network_verifying_key();
    let msg = b"bootstrap test";
    let sig = sign(&sk, msg);
    assert!(verify(&pk, msg, &sig).is_ok());
    assert_eq!(public_key(&sk), pk);
}
