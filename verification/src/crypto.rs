//! Hashing, hex text, Ed25519 signatures and the HKDF network seed.
use vstd::prelude::*;
use vstd::utf8::{encode_utf8, is_ascii_chars, is_ascii_chars_encode_utf8};

use ed25519_dalek::{Signer, Verifier};
use hkdf::Hkdf;
use sha2::{Digest, Sha256};

verus! {

// ---------------------------------------------------------------------------
// SHA-256

/// SHA-256 of a byte string (computed by the `sha2` crate).
pub uninterp spec fn sha256_digest(data: Seq<u8>) -> Seq<u8>;

/// `sha2::Sha256::digest`: the 32-byte SHA-256 digest of `data`.
#[verifier::external_body]
pub fn sha256(data: &[u8]) -> (r: [u8; 32])
    ensures
        r@ == sha256_digest(data@),
        r@.len() == 32,
{
    Sha256::digest(data).into()
}

// ---------------------------------------------------------------------------
// Hex text

pub open spec fn hex_digit(n: u8) -> char {
    if n < 10 {
        (48 + n) as char
    } else {
        (87 + n) as char
    }
}

/// Lower-case hex text of `b`, two digits per byte.
pub open spec fn hex_lower(b: Seq<u8>) -> Seq<char>
    decreases b.len(),
{
    if b.len() == 0 {
        seq![]
    } else {
        hex_lower(b.drop_last()) + seq![hex_digit(b.last() / 16), hex_digit(b.last() % 16)]
    }
}

pub proof fn lemma_hex_lower_len(b: Seq<u8>)
    ensures
        hex_lower(b).len() == 2 * b.len(),
    decreases b.len(),
{
    if b.len() > 0 {
        lemma_hex_lower_len(b.drop_last());
    }
}

fn hex_digit_exec(n: u8) -> (c: char)
    requires
        n < 16,
    ensures
        c == hex_digit(n),
{
    if n < 10 {
        (48 + n) as char
    } else {
        (87 + n) as char
    }
}

/// Lower-case hex text of `data` (as `hex::encode` writes it).
pub fn hex_encode(data: &[u8]) -> (s: String)
    ensures
        s@ == hex_lower(data@),
{
    let mut s = String::new();
    let mut i: usize = 0;
    while i < data.len()
        invariant
            i <= data@.len(),
            s@ == hex_lower(data@.take(i as int)),
        decreases data@.len() - i,
    {
        let b = data[i];
        let ghost s0 = s@;
        s.push(hex_digit_exec(b / 16));
        s.push(hex_digit_exec(b % 16));
        proof {
            let t = data@.take(i + 1);
            assert(t.drop_last() =~= data@.take(i as int));
            assert(t.last() == b);
            assert(s@ =~= s0 + seq![hex_digit(b / 16), hex_digit(b % 16)]);
        }
        i = i + 1;
    }
    assert(data@.take(data@.len() as int) =~= data@);
    s
}

/// Value of one hex digit byte (either case).
pub open spec fn hex_value(c: u8) -> Option<u8> {
    if 48 <= c <= 57 {
        Some((c - 48) as u8)
    } else if 97 <= c <= 102 {
        Some((c - 87) as u8)
    } else if 65 <= c <= 70 {
        Some((c - 55) as u8)
    } else {
        None
    }
}

/// Bytes denoted by hex text: `None` for an odd length or a non-hex byte.
pub open spec fn hex_decode_spec(t: Seq<u8>) -> Option<Seq<u8>>
    decreases t.len(),
{
    if t.len() % 2 != 0 {
        None
    } else if t.len() == 0 {
        Some(seq![])
    } else {
        match (hex_decode_spec(t.subrange(0, t.len() - 2)), hex_value(t[t.len() - 2]), hex_value(
            t[t.len() - 1],
        )) {
            (Some(p), Some(hi), Some(lo)) => Some(p.push((hi * 16 + lo) as u8)),
            _ => None,
        }
    }
}

/// The message of the error `hex::decode` reports for text it refuses.
pub uninterp spec fn hex_error_text(t: Seq<u8>) -> Seq<char>;

/// `hex::decode`: the bytes that the hex text `t` denotes; when its length
/// is odd or it holds a byte that is not a hex digit, the error's message
/// (`FromHexError`'s `Display`).
#[verifier::external_body]
pub(crate) fn hex_decode(t: &[u8]) -> (r: Result<Vec<u8>, String>)
    ensures
        match (r, hex_decode_spec(t@)) {
            (Ok(v), Some(s)) => v@ == s,
            (Err(m), None) => m@ == hex_error_text(t@),
            _ => false,
        },
{
    hex::decode(t).map_err(|e| e.to_string())
}

/// Hex text round-trips: decoding the (ASCII) bytes of `hex_lower(b)`
/// gives `b` back.
pub proof fn lemma_hex_roundtrip(b: Seq<u8>)
    ensures
        hex_decode_spec(encode_utf8(hex_lower(b))) == Some(b),
    decreases b.len(),
{
    lemma_hex_ascii(b);
    let h = hex_lower(b);
    let t = encode_utf8(h);
    lemma_hex_lower_len(b);
    if b.len() > 0 {
        let p = b.drop_last();
        lemma_hex_roundtrip(p);
        lemma_hex_ascii(p);
        lemma_hex_lower_len(p);
        let hp = hex_lower(p);
        assert(t.subrange(0, t.len() - 2) =~= encode_utf8(hp)) by {
            assert forall|i: int| 0 <= i < t.len() - 2 implies #[trigger] t[i] == encode_utf8(hp)[i] by {
                assert(h[i] == hp[i]);
            }
        }
        let x = b.last();
        let hi = x / 16;
        let lo = x % 16;
        assert(t[t.len() - 2] == hex_digit(hi) as u8);
        assert(t[t.len() - 1] == hex_digit(lo) as u8);
        assert(hex_value(hex_digit(hi) as u8) == Some(hi));
        assert(hex_value(hex_digit(lo) as u8) == Some(lo));
        assert((hi * 16 + lo) as u8 == x);
        assert(p.push(x) =~= b);
    }
}

proof fn lemma_hex_ascii(b: Seq<u8>)
    ensures
        is_ascii_chars(hex_lower(b)),
        encode_utf8(hex_lower(b)).len() == hex_lower(b).len(),
        forall|i: int|
            0 <= i < hex_lower(b).len() ==> #[trigger] encode_utf8(hex_lower(b))[i] == hex_lower(
                b,
            )[i] as u8,
    decreases b.len(),
{
    if b.len() > 0 {
        lemma_hex_ascii(b.drop_last());
    }
    is_ascii_chars_encode_utf8(hex_lower(b));
}

/// `hex(sha256(data))`, the fingerprint form used throughout.
pub open spec fn sha256_hex_spec(data: Seq<u8>) -> Seq<char> {
    hex_lower(sha256_digest(data))
}

/// SHA-256 of `data` as 64 lower-case hex digits.
pub fn sha256_hex(data: &[u8]) -> (s: String)
    ensures
        s@ == sha256_hex_spec(data@),
        s@.len() == 64,
{
    let d = sha256(data);
    proof {
        lemma_hex_lower_len(d@);
    }
    hex_encode(&d)
}

// ---------------------------------------------------------------------------
// Ed25519

/// Public key (32 bytes) of the Ed25519 signing key with secret `seed`.
pub uninterp spec fn ed25519_public(seed: Seq<u8>) -> Seq<u8>;

/// Signature (64 bytes) of `msg` under the signing key with secret `seed`.
pub uninterp spec fn ed25519_signature(seed: Seq<u8>, msg: Seq<u8>) -> Seq<u8>;

/// Whether 32 bytes decode to a usable Ed25519 public key.
pub uninterp spec fn ed25519_key_valid(public: Seq<u8>) -> bool;

/// Whether `sig` is a valid signature of `msg` under `public`.
pub uninterp spec fn ed25519_verifies(public: Seq<u8>, msg: Seq<u8>, sig: Seq<u8>) -> bool;

/// `SigningKey::generate` from the thread-local random generator; only the
/// secret bytes are kept. Nothing is stated of their value.
#[verifier::external_body]
pub fn generate_keypair() -> (seed: [u8; 32]) {
    let mut csprng = rand::thread_rng();
    ed25519_dalek::SigningKey::generate(&mut csprng).to_bytes()
}

/// `SigningKey::from_bytes(seed).verifying_key()`: the public key, which
/// the crate documents as always decodable.
#[verifier::external_body]
pub(crate) fn public_key_of(seed: &[u8; 32]) -> (public: [u8; 32])
    ensures
        public@ == ed25519_public(seed@),
        ed25519_key_valid(public@),
{
    ed25519_dalek::SigningKey::from_bytes(seed).verifying_key().to_bytes()
}

/// `SigningKey::sign`: the (deterministic) Ed25519 signature of `message`;
/// it verifies under the key's own public key.
#[verifier::external_body]
pub fn sign(seed: &[u8; 32], message: &[u8]) -> (sig: [u8; 64])
    ensures
        sig@ == ed25519_signature(seed@, message@),
        ed25519_verifies(ed25519_public(seed@), message@, sig@),
{
    ed25519_dalek::SigningKey::from_bytes(seed).sign(message).to_bytes()
}

/// The message of the error `VerifyingKey::from_bytes` reports for bytes
/// that are not a public key.
pub uninterp spec fn ed25519_key_error_text(public: Seq<u8>) -> Seq<char>;

/// `VerifyingKey::from_bytes(public)`: `None` for a usable key, else the
/// error's message.
#[verifier::external_body]
pub(crate) fn public_key_error(public: &[u8; 32]) -> (r: Option<String>)
    ensures
        r is None <==> ed25519_key_valid(public@),
        r matches Some(m) ==> m@ == ed25519_key_error_text(public@),
{
    ed25519_dalek::VerifyingKey::from_bytes(public).err().map(|e| e.to_string())
}

/// `VerifyingKey::verify`, for a key that decodes: whether `signature` is
/// a valid signature of `message`.
#[verifier::external_body]
pub(crate) fn verify_raw(public: &[u8; 32], message: &[u8], signature: &[u8; 64]) -> (b: bool)
    requires
        ed25519_key_valid(public@),
    ensures
        b == ed25519_verifies(public@, message@, signature@),
{
    match ed25519_dalek::VerifyingKey::from_bytes(public) {
        Ok(key) => key.verify(message, &ed25519_dalek::Signature::from_bytes(signature)).is_ok(),
        Err(_) => false,
    }
}

/// Errors of signature checking.
#[derive(Debug, Clone, Copy, PartialEq, Eq, Structural)]
pub enum VerifyError {
    InvalidPublicKey,
    InvalidSignature,
}

/// Check an Ed25519 signature: `Ok` exactly when the public key decodes and
/// the signature verifies.
pub fn verify(public: &[u8; 32], message: &[u8], signature: &[u8; 64]) -> (r: Result<(), VerifyError>)
    ensures
        r is Ok <==> ed25519_key_valid(public@) && ed25519_verifies(public@, message@, signature@),
        r == Err::<(), VerifyError>(VerifyError::InvalidPublicKey) <==> !ed25519_key_valid(public@),
{
    if public_key_error(public).is_some() {
        return Err(VerifyError::InvalidPublicKey);
    }
    if verify_raw(public, message, signature) {
        Ok(())
    } else {
        Err(VerifyError::InvalidSignature)
    }
}

// ---------------------------------------------------------------------------
// HKDF-SHA256

/// The 32-byte HKDF-SHA256 output for `salt`, `ikm` and `info`.
pub uninterp spec fn hkdf_sha256_32(salt: Seq<u8>, ikm: Seq<u8>, info: Seq<u8>) -> Seq<u8>;

/// `Hkdf::<Sha256>::new(Some(salt), ikm).expand(info, 32 bytes)`; the crate
/// refuses only outputs longer than 255 hash lengths, so 32 bytes always
/// succeed.
#[verifier::external_body]
fn hkdf_expand_32(salt: &[u8], ikm: &[u8], info: &[u8]) -> (okm: [u8; 32])
    ensures
        okm@ == hkdf_sha256_32(salt@, ikm@, info@),
{
    let hk = Hkdf::<Sha256>::new(Some(salt), ikm);
    let mut okm = [0u8; 32];
    let _ = hk.expand(info, &mut okm);
    okm
}

pub open spec fn network_ikm() -> Seq<u8> {
    seq![72u8, 89, 68, 82, 65, 45, 99, 101, 114, 116, 45, 118, 101, 114, 105, 102, 121, 45, 118, 49]
}

pub open spec fn network_salt() -> Seq<u8> {
    seq![
        72u8, 89, 68, 82, 65, 45, 110, 101, 116, 119, 111, 114, 107, 45, 105, 100, 101, 110, 116,
        105, 116, 121,
    ]
}

pub open spec fn network_info() -> Seq<u8> {
    seq![101u8, 100, 50, 53, 53, 49, 57, 45, 110, 101, 116, 119, 111, 114, 107, 45, 107, 101, 121]
}

/// The shared network seed: HKDF-SHA256 with ikm `HYDRA-cert-verify-v1`,
/// salt `HYDRA-network-identity` and info `ed25519-network-key`.
pub open spec fn network_seed_spec() -> Seq<u8> {
    hkdf_sha256_32(network_salt(), network_ikm(), network_info())
}

/// Derive the HYDRA network seed (a protocol constant).
pub fn derive_network_seed() -> (seed: [u8; 32])
    ensures
        seed@ == network_seed_spec(),
{
    let ikm: [u8; 20] = [72, 89, 68, 82, 65, 45, 99, 101, 114, 116, 45, 118, 101, 114, 105, 102, 121, 45, 118, 49];
    let salt: [u8; 22] = [
        72, 89, 68, 82, 65, 45, 110, 101, 116, 119, 111, 114, 107, 45, 105, 100, 101, 110, 116,
        105, 116, 121,
    ];
    let info: [u8; 19] = [101, 100, 50, 53, 53, 49, 57, 45, 110, 101, 116, 119, 111, 114, 107, 45, 107, 101, 121];
    assert(ikm@ =~= network_ikm());
    assert(salt@ =~= network_salt());
    assert(info@ =~= network_info());
    hkdf_expand_32(&salt, &ikm, &info)
}

/// The network signing key: its secret is the network seed.
pub fn derive_network_signing_key() -> (seed: [u8; 32])
    ensures
        seed@ == network_seed_spec(),
{
    derive_network_seed()
}

/// The network public key.
pub fn derive_network_verifying_key() -> (public: [u8; 32])
    ensures
        public@ == ed25519_public(network_seed_spec()),
{
    let seed = derive_network_signing_key();
    public_key_of(&seed)
}

/// The network id: SHA-256 of the network public key.
pub open spec fn network_id_spec() -> Seq<u8> {
    sha256_digest(ed25519_public(network_seed_spec()))
}

pub fn network_id() -> (id: [u8; 32])
    ensures
        id@ == network_id_spec(),
{
    let public = derive_network_verifying_key();
    sha256(&public)
}

/// The network id as lower-case hex.
pub fn network_id_hex() -> (s: String)
    ensures
        s@ == hex_lower(network_id_spec()),
        s@.len() == 64,
{
    let id = network_id();
    proof {
        lemma_hex_lower_len(id@);
    }
    hex_encode(&id)
}

} // verus!
