//! A HYDRA node's own Ed25519 identity: its key pair and its node id, the
//! hex of its public key.
use vstd::prelude::*;
use vstd::string::StringExecFns;

use crate::base64::{b64_decode_spec, b64_encode_spec, base64_decode, base64_encode, invalid_char_message};
use crate::crypto::{
    derive_network_signing_key, ed25519_key_valid, ed25519_public, ed25519_signature,
    ed25519_verifies, generate_keypair, hex_encode, hex_lower, lemma_hex_lower_len, network_seed_spec,
    public_key_of, sha256, sha256_digest, sign, verify,
};
use crate::error::HydraError;
use crate::num::{decimal, push_decimal};
use crate::strmap::str_eq;

verus! {

/// A node's key pair and id.
#[derive(Debug)]
pub struct NodeIdentity {
    /// The secret 32 bytes of the Ed25519 signing key.
    pub signing_key: [u8; 32],
    /// The public key.
    pub verifying_key: [u8; 32],
    /// The public key in lower-case hex: the node's id on the network.
    pub node_id: String,
}

/// The identity as it is stored: the secret in base64 and the node id.
#[derive(Debug, Clone)]
pub struct StoredIdentity {
    pub secret_key_b64: String,
    pub node_id: String,
}

impl NodeIdentity {
    /// The public key and the node id belong to the secret key.
    pub open spec fn wf(&self) -> bool {
        &&& self.verifying_key@ == ed25519_public(self.signing_key@)
        &&& ed25519_key_valid(self.verifying_key@)
        &&& self.node_id@ == hex_lower(self.verifying_key@)
    }

    /// The identity of the signing key with secret `signing_key`.
    pub fn from_signing_key(signing_key: [u8; 32]) -> (r: Self)
        ensures
            r.wf(),
            r.signing_key == signing_key,
    {
        let verifying_key = public_key_of(&signing_key);
        let node_id = hex_encode(&verifying_key);
        NodeIdentity { signing_key, verifying_key, node_id }
    }

    /// A fresh random identity (not stored).
    pub fn generate_new() -> (r: Self)
        ensures
            r.wf(),
    {
        NodeIdentity::from_signing_key(generate_keypair())
    }

    /// This node's signature of `message`.
    pub fn sign(&self, message: &[u8]) -> (sig: [u8; 64])
        ensures
            sig@ == ed25519_signature(self.signing_key@, message@),
            ed25519_verifies(ed25519_public(self.signing_key@), message@, sig@),
    {
        sign(&self.signing_key, message)
    }

    /// Check a signature made with this node's key.
    pub fn verify(&self, message: &[u8], signature: &[u8; 64]) -> (r: Result<(), HydraError>)
        requires
            self.wf(),
        ensures
            r is Ok <==> ed25519_verifies(self.verifying_key@, message@, signature@),
            r is Err ==> r == Err::<(), HydraError>(HydraError::InvalidSignature),
    {
        match verify(&self.verifying_key, message, signature) {
            Ok(()) => Ok(()),
            Err(_) => Err(HydraError::InvalidSignature),
        }
    }

    /// The form to store: the secret in base64, and the node id.
    pub fn to_stored(&self) -> (s: StoredIdentity)
        ensures
            s.secret_key_b64@ == b64_encode_spec(self.signing_key@),
            s.node_id@ == self.node_id@,
    {
        StoredIdentity {
            secret_key_b64: base64_encode(&self.signing_key),
            node_id: self.node_id.clone(),
        }
    }

    /// The identity read back from its stored form. The secret must be
    /// base64 of 32 bytes, and the stored node id must be the one those
    /// bytes give.
    pub fn from_stored(stored: &StoredIdentity) -> (r: Result<NodeIdentity, HydraError>)
        ensures
            match b64_decode_spec(stored.secret_key_b64@) {
                Err(c) => r matches Err(HydraError::Crypto(m)) && m@ == invalid_char_message(c),
                Ok(d) => if d.len() != 32 {
                    r matches Err(HydraError::Crypto(m)) && m@
                        == "invalid secret key length: expected 32, got "@ + decimal(d.len())
                } else if hex_lower(ed25519_public(d)) != stored.node_id@ {
                    r matches Err(HydraError::Crypto(m)) && m@
                        == "stored node_id does not match derived public key"@
                } else {
                    r matches Ok(id) && id.wf() && id.signing_key@ == d
                },
            },
    {
        let bytes = match base64_decode(stored.secret_key_b64.as_str()) {
            Ok(b) => b,
            Err(e) => return Err(e),
        };
        if bytes.len() != 32 {
            let mut m = String::from_str("invalid secret key length: expected 32, got ");
            push_decimal(&mut m, bytes.len() as u64);
            return Err(HydraError::Crypto(m));
        }
        let mut key: [u8; 32] = [0u8; 32];
        let mut i: usize = 0;
        while i < 32
            invariant
                i <= 32,
                bytes@.len() == 32,
                forall|j: int| 0 <= j < i ==> key@[j] == bytes@[j],
            decreases 32 - i,
        {
            key.set(i, bytes[i]);
            i = i + 1;
        }
        assert(key@ =~= bytes@);
        let id = NodeIdentity::from_signing_key(key);
        if !str_eq(id.node_id.as_str(), stored.node_id.as_str()) {
            return Err(
                HydraError::Crypto(
                    String::from_str("stored node_id does not match derived public key"),
                ),
            );
        }
        Ok(id)
    }
}

/// The identity shared by the whole HYDRA network, derived from protocol
/// constants (HKDF-SHA256); every node computes the same one.
#[derive(Debug)]
pub struct NetworkIdentity {
    /// The secret 32 bytes of the shared signing key.
    pub signing_key: [u8; 32],
    /// The shared public key.
    pub verifying_key: [u8; 32],
    /// SHA-256 of the public key: the `network_id` of every event.
    pub network_id: [u8; 32],
    /// The network id in lower-case hex.
    pub network_id_hex: String,
}

impl NetworkIdentity {
    /// Derive the network identity.
    pub fn derive() -> (r: Self)
        ensures
            r.signing_key@ == network_seed_spec(),
            r.verifying_key@ == ed25519_public(network_seed_spec()),
            r.network_id@ == sha256_digest(r.verifying_key@),
            r.network_id_hex@ == hex_lower(r.network_id@),
            r.network_id_hex@.len() == 64,
    {
        let signing_key = derive_network_signing_key();
        let verifying_key = public_key_of(&signing_key);
        let network_id = sha256(&verifying_key);
        let network_id_hex = hex_encode(&network_id);
        proof {
            lemma_hex_lower_len(network_id@);
        }
        NetworkIdentity { signing_key, verifying_key, network_id, network_id_hex }
    }

    /// The public key the bootstrap onion service is keyed with.
    pub fn bootstrap_onion_pubkey_bytes(&self) -> (k: &[u8; 32])
        ensures
            *k == self.verifying_key,
    {
        &self.verifying_key
    }
}

/// Storing an identity and reading it back gives the same identity: the
/// stored secret decodes to the 32 secret bytes, whose public key's hex
/// is the stored node id.
pub proof fn lemma_store_round_trip(id: NodeIdentity)
    requires
        id.wf(),
    ensures
        b64_decode_spec(b64_encode_spec(id.signing_key@)) == Ok::<Seq<u8>, char>(id.signing_key@),
        id.signing_key@.len() == 32,
        hex_lower(ed25519_public(id.signing_key@)) == id.node_id@,
{
    crate::base64::lemma_base64_roundtrip(id.signing_key@);
}

} // verus!
