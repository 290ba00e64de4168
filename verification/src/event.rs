//! Signed events of the HYDRA log.
use vstd::prelude::*;
use vstd::string::{StrSliceExecFns, StringExecFns, StringSliceAdditionalSpecFns};
use vstd::utf8::encode_utf8;

use crate::crypto::{
    ed25519_key_error_text, ed25519_key_valid, ed25519_public, ed25519_signature,
    ed25519_verifies, hex_decode, hex_decode_spec, hex_encode, hex_error_text, hex_lower,
    lemma_hex_roundtrip, public_key_error, public_key_of, sha256_hex, sha256_hex_spec, sign,
    verify_raw,
};
use crate::error::HydraError;
use crate::json::{
    json_int, json_string, json_string_array, push_json_i64, push_json_string,
    push_json_string_array, push_json_u64,
};
use crate::ledger::strings_view;
use crate::num::{decimal, push_decimal};
use crate::observation::CertObservation;
use crate::time::{rfc3339_offset, rfc3339_z, Timestamp};

verus! {

/// Kinds of event.
#[derive(Debug, Clone, Copy, PartialEq, Eq, Structural)]
pub enum EventType {
    Genesis,
    MemberJoin,
    MemberLeave,
    CertObservationBatch,
}

/// What an event says.
#[derive(Debug, Clone)]
pub enum EventPayload {
    /// The first event of a log.
    Genesis { network_id: String, creator_pubkey: String, creator_onion: String },
    /// A node joins the network.
    MemberJoin { node_id: String, onion_address: String },
    /// A node leaves the network.
    MemberLeave { node_id: String },
    /// Certificate observations.
    CertObservationBatch { observations: Vec<CertObservation> },
}

/// The kind of a payload.
pub open spec fn payload_type(p: EventPayload) -> EventType {
    match p {
        EventPayload::Genesis { .. } => EventType::Genesis,
        EventPayload::MemberJoin { .. } => EventType::MemberJoin,
        EventPayload::MemberLeave { .. } => EventType::MemberLeave,
        EventPayload::CertObservationBatch { .. } => EventType::CertObservationBatch,
    }
}

impl EventPayload {
    pub fn event_type(&self) -> (t: EventType)
        ensures
            t == payload_type(*self),
    {
        match self {
            EventPayload::Genesis { .. } => EventType::Genesis,
            EventPayload::MemberJoin { .. } => EventType::MemberJoin,
            EventPayload::MemberLeave { .. } => EventType::MemberLeave,
            EventPayload::CertObservationBatch { .. } => EventType::CertObservationBatch,
        }
    }
}

/// An event of the log, signed by its author. Events of one author are
/// chained: `prev_hash` is the hash of the author's previous event.
#[derive(Debug, Clone)]
pub struct SignedEvent {
    /// Position of the event in its author's sequence.
    pub sequence: u64,
    pub event_type: EventType,
    pub payload: EventPayload,
    /// The author's Ed25519 public key, in hex.
    pub author: String,
    pub timestamp: Timestamp,
    /// Ed25519 signature over the event's canonical bytes, in hex.
    pub signature: String,
    /// Hash of the previous event, in hex; sixty-four zeros for the first.
    pub prev_hash: String,
}

/// Sixty-four zeros.
pub open spec fn genesis_hash_spec() -> Seq<char> {
    Seq::new(64, |i: int| '0')
}

/// The `prev_hash` of a log's first event: sixty-four zeros.
pub fn genesis_prev_hash() -> (h: String)
    ensures
        h@ == genesis_hash_spec(),
{
    let mut h = String::new();
    let mut i: usize = 0;
    while i < 64
        invariant
            i <= 64,
            h@ == Seq::new(i as nat, |k: int| '0'),
        decreases 64 - i,
    {
        h.push('0');
        i = i + 1;
        assert(h@ =~= Seq::new(i as nat, |k: int| '0'));
    }
    h
}

// ---------------------------------------------------------------------
// JSON form
// ---------------------------------------------------------------------

fn push_str(s: &mut String, t: &str)
    ensures
        final(s)@ == old(s)@ + t@,
{
    s.append(t);
}

/// The JSON form of an observation (fields in declaration order).
pub open spec fn observation_json(o: CertObservation) -> Seq<char> {
    "{\"domain\":"@ + json_string(o.domain@) + ",\"port\":"@ + json_int(o.port as int)
        + ",\"cert_fingerprint\":"@ + json_string(o.cert_fingerprint@) + ",\"chain_fingerprints\":"@
        + json_string_array(strings_view(o.chain_fingerprints@)) + ",\"issuer\":"@ + json_string(
        o.issuer@,
    ) + ",\"subject\":"@ + json_string(o.subject@) + ",\"san\":"@ + json_string_array(
        strings_view(o.san@),
    ) + ",\"not_before\":"@ + json_int(o.not_before as int) + ",\"not_after\":"@ + json_int(
        o.not_after as int,
    ) + ",\"observed_at\":"@ + json_string(rfc3339_z(o.observed_at@.0, o.observed_at@.1))
        + ",\"observer_id\":"@ + json_string(o.observer_id@) + "}"@
}

/// The JSON forms of observations, separated by commas.
pub open spec fn observations_items(v: Seq<CertObservation>) -> Seq<char>
    decreases v.len(),
{
    if v.len() == 0 {
        Seq::empty()
    } else if v.len() == 1 {
        observation_json(v[0])
    } else {
        observations_items(v.drop_last()) + seq![','] + observation_json(v.last())
    }
}

/// The name of an event type.
pub open spec fn event_type_name(t: EventType) -> Seq<char> {
    match t {
        EventType::Genesis => "Genesis"@,
        EventType::MemberJoin => "MemberJoin"@,
        EventType::MemberLeave => "MemberLeave"@,
        EventType::CertObservationBatch => "CertObservationBatch"@,
    }
}

/// The JSON form of an event type: its name as a string.
pub open spec fn event_type_json(t: EventType) -> Seq<char> {
    json_string(event_type_name(t))
}

/// The JSON form of a payload: an object keyed by the variant's name.
pub open spec fn payload_json(p: EventPayload) -> Seq<char> {
    match p {
        EventPayload::Genesis { network_id, creator_pubkey, creator_onion } => "{\"Genesis\":{\"network_id\":"@
            + json_string(network_id@) + ",\"creator_pubkey\":"@ + json_string(creator_pubkey@)
            + ",\"creator_onion\":"@ + json_string(creator_onion@) + "}}"@,
        EventPayload::MemberJoin { node_id, onion_address } => "{\"MemberJoin\":{\"node_id\":"@
            + json_string(node_id@) + ",\"onion_address\":"@ + json_string(onion_address@)
            + "}}"@,
        EventPayload::MemberLeave { node_id } => "{\"MemberLeave\":{\"node_id\":"@ + json_string(
            node_id@,
        ) + "}}"@,
        EventPayload::CertObservationBatch { observations } => "{\"CertObservationBatch\":{\"observations\":["@
            + observations_items(observations@) + "]}}"@,
    }
}

/// The JSON form of a signed event.
#[verifier::opaque]
pub open spec fn event_json(e: SignedEvent) -> Seq<char> {
    "{\"sequence\":"@ + json_int(e.sequence as int) + ",\"event_type\":"@ + event_type_json(
        e.event_type,
    ) + ",\"payload\":"@ + payload_json(e.payload) + ",\"author\":"@ + json_string(e.author@)
        + ",\"timestamp\":"@ + json_string(rfc3339_z(e.timestamp@.0, e.timestamp@.1))
        + ",\"signature\":"@ + json_string(e.signature@) + ",\"prev_hash\":"@ + json_string(
        e.prev_hash@,
    ) + "}"@
}

pub(crate) fn push_observation_json(out: &mut String, o: &CertObservation)
    ensures
        final(out)@ == old(out)@ + observation_json(*o),
{
    let ghost start = out@;
    push_str(out, "{\"domain\":");
    push_json_string(out, o.domain.as_str());
    push_str(out, ",\"port\":");
    push_json_u64(out, o.port as u64);
    push_str(out, ",\"cert_fingerprint\":");
    push_json_string(out, o.cert_fingerprint.as_str());
    push_str(out, ",\"chain_fingerprints\":");
    push_json_string_array(out, &o.chain_fingerprints);
    push_str(out, ",\"issuer\":");
    push_json_string(out, o.issuer.as_str());
    push_str(out, ",\"subject\":");
    push_json_string(out, o.subject.as_str());
    push_str(out, ",\"san\":");
    push_json_string_array(out, &o.san);
    push_str(out, ",\"not_before\":");
    push_json_i64(out, o.not_before);
    push_str(out, ",\"not_after\":");
    push_json_i64(out, o.not_after);
    push_str(out, ",\"observed_at\":");
    let t = o.observed_at.to_rfc3339_z();
    push_json_string(out, t.as_str());
    push_str(out, ",\"observer_id\":");
    push_json_string(out, o.observer_id.as_str());
    push_str(out, "}");
    assert(out@ =~= start + observation_json(*o));
}

fn push_payload_json(out: &mut String, p: &EventPayload)
    ensures
        final(out)@ == old(out)@ + payload_json(*p),
{
    let ghost start = out@;
    match p {
        EventPayload::Genesis { network_id, creator_pubkey, creator_onion } => {
            push_str(out, "{\"Genesis\":{\"network_id\":");
            push_json_string(out, network_id.as_str());
            push_str(out, ",\"creator_pubkey\":");
            push_json_string(out, creator_pubkey.as_str());
            push_str(out, ",\"creator_onion\":");
            push_json_string(out, creator_onion.as_str());
            push_str(out, "}}");
        },
        EventPayload::MemberJoin { node_id, onion_address } => {
            push_str(out, "{\"MemberJoin\":{\"node_id\":");
            push_json_string(out, node_id.as_str());
            push_str(out, ",\"onion_address\":");
            push_json_string(out, onion_address.as_str());
            push_str(out, "}}");
        },
        EventPayload::MemberLeave { node_id } => {
            push_str(out, "{\"MemberLeave\":{\"node_id\":");
            push_json_string(out, node_id.as_str());
            push_str(out, "}}");
        },
        EventPayload::CertObservationBatch { observations } => {
            push_str(out, "{\"CertObservationBatch\":{\"observations\":[");
            let ghost mid = out@;
            let mut i: usize = 0;
            while i < observations.len()
                invariant
                    i <= observations@.len(),
                    out@ == mid + observations_items(observations@.take(i as int)),
                decreases observations@.len() - i,
            {
                proof {
                    assert(observations@.take(i + 1).drop_last() =~= observations@.take(i as int));
                }
                if i > 0 {
                    out.push(',');
                }
                push_observation_json(out, &observations[i]);
                i = i + 1;
                assert(out@ =~= mid + observations_items(observations@.take(i as int)));
            }
            assert(observations@.take(observations@.len() as int) =~= observations@);
            push_str(out, "]}}");
        },
    }
    assert(out@ =~= start + payload_json(*p));
}

fn event_type_str(t: EventType) -> (s: &'static str)
    ensures
        s@ == event_type_name(t),
{
    match t {
        EventType::Genesis => "Genesis",
        EventType::MemberJoin => "MemberJoin",
        EventType::MemberLeave => "MemberLeave",
        EventType::CertObservationBatch => "CertObservationBatch",
    }
}

/// The JSON text of an event, as the log stores it.
pub fn event_to_json(e: &SignedEvent) -> (s: String)
    ensures
        s@ == event_json(*e),
{
    let mut out = String::new();
    push_str(&mut out, "{\"sequence\":");
    push_json_u64(&mut out, e.sequence);
    push_str(&mut out, ",\"event_type\":");
    push_json_string(&mut out, event_type_str(e.event_type));
    push_str(&mut out, ",\"payload\":");
    push_payload_json(&mut out, &e.payload);
    push_str(&mut out, ",\"author\":");
    push_json_string(&mut out, e.author.as_str());
    push_str(&mut out, ",\"timestamp\":");
    let t = e.timestamp.to_rfc3339_z();
    push_json_string(&mut out, t.as_str());
    push_str(&mut out, ",\"signature\":");
    push_json_string(&mut out, e.signature.as_str());
    push_str(&mut out, ",\"prev_hash\":");
    push_json_string(&mut out, e.prev_hash.as_str());
    push_str(&mut out, "}");
    proof {
        reveal(event_json);
    }
    assert(out@ =~= event_json(*e));
    out
}

// ---------------------------------------------------------------------
// Signing and hashing
// ---------------------------------------------------------------------

/// The big-endian bytes of the `k` low-order bytes of `v`.
pub open spec fn be_bytes(v: nat, k: nat) -> Seq<u8>
    decreases k,
{
    if k == 0 {
        Seq::empty()
    } else {
        be_bytes(v / 256, (k - 1) as nat).push((v % 256) as u8)
    }
}

fn be_bytes_exec(v: u64, k: usize) -> (r: Vec<u8>)
    ensures
        r@ == be_bytes(v as nat, k as nat),
    decreases k,
{
    if k == 0 {
        Vec::new()
    } else {
        let mut r = be_bytes_exec(v / 256, k - 1);
        r.push((v % 256) as u8);
        r
    }
}

/// The bytes an event's signature covers: the sequence number (8 bytes,
/// big-endian), the event type and payload as JSON, the author, the
/// timestamp in RFC 3339 and the previous hash.
pub open spec fn canonical_spec(
    sequence: u64,
    event_type: EventType,
    payload: EventPayload,
    author: Seq<char>,
    timestamp: Timestamp,
    prev_hash: Seq<char>,
) -> Seq<u8> {
    be_bytes(sequence as nat, 8) + encode_utf8(event_type_json(event_type)) + encode_utf8(
        payload_json(payload),
    ) + encode_utf8(author) + encode_utf8(rfc3339_offset(timestamp@.0, timestamp@.1))
        + encode_utf8(prev_hash)
}

fn append_bytes(v: &mut Vec<u8>, s: &str)
    ensures
        final(v)@ == old(v)@ + encode_utf8(s@),
{
    let b = s.as_bytes_vec();
    let ghost start = v@;
    let mut i: usize = 0;
    while i < b.len()
        invariant
            i <= b@.len(),
            b@ == encode_utf8(s@),
            v@ == start + b@.take(i as int),
        decreases b@.len() - i,
    {
        v.push(b[i]);
        i = i + 1;
        assert(v@ =~= start + b@.take(i as int));
    }
    assert(b@.take(b@.len() as int) =~= b@);
}

/// The canonical bytes of an event.
fn canonical_bytes(
    sequence: u64,
    event_type: EventType,
    payload: &EventPayload,
    author: &str,
    timestamp: &Timestamp,
    prev_hash: &str,
) -> (r: Vec<u8>)
    ensures
        r@ == canonical_spec(sequence, event_type, *payload, author@, *timestamp, prev_hash@),
{
    let mut buf = be_bytes_exec(sequence, 8);
    let mut t = String::new();
    push_json_string(&mut t, event_type_str(event_type));
    append_bytes(&mut buf, t.as_str());
    let mut p = String::new();
    push_payload_json(&mut p, payload);
    assert(p@ =~= payload_json(*payload));
    append_bytes(&mut buf, p.as_str());
    append_bytes(&mut buf, author);
    let ts = timestamp.to_rfc3339();
    append_bytes(&mut buf, ts.as_str());
    append_bytes(&mut buf, prev_hash);
    assert(t@ =~= event_type_json(event_type));
    buf
}

/// The signature a key with secret `seed` gives an event with these
/// fields, in hex.
pub open spec fn event_signature(seed: Seq<u8>, e: SignedEvent) -> Seq<char> {
    hex_lower(
        ed25519_signature(
            seed,
            canonical_spec(e.sequence, e.event_type, e.payload, e.author@, e.timestamp, e.prev_hash@),
        ),
    )
}

/// `e` carries the signature that the key with secret `seed` makes over its
/// fields, and is authored by that key (which, like every public key made
/// from a secret, decodes).
pub open spec fn signed_by(seed: Seq<u8>, e: SignedEvent) -> bool {
    let msg = canonical_spec(e.sequence, e.event_type, e.payload, e.author@, e.timestamp, e.prev_hash@);
    &&& e.author@ == hex_lower(ed25519_public(seed))
    &&& e.signature@ == event_signature(seed, e)
    &&& ed25519_public(seed).len() == 32
    &&& ed25519_key_valid(ed25519_public(seed))
    &&& ed25519_signature(seed, msg).len() == 64
    &&& ed25519_verifies(ed25519_public(seed), msg, ed25519_signature(seed, msg))
}

/// Create and sign an event: authored by the key's public key (hex),
/// stamped with the current time.
pub fn sign_event(signing_key: &[u8; 32], sequence: u64, payload: EventPayload, prev_hash: &str) -> (e:
    SignedEvent)
    ensures
        e.sequence == sequence,
        e.event_type == payload_type(payload),
        e.payload == payload,
        e.author@ == hex_lower(ed25519_public(signing_key@)),
        e.prev_hash@ == prev_hash@,
        signed_by(signing_key@, e),
{
    let public = public_key_of(signing_key);
    let author = hex_encode(&public);
    let timestamp = Timestamp::now();
    let event_type = payload.event_type();
    let bytes = canonical_bytes(sequence, event_type, &payload, author.as_str(), &timestamp, prev_hash);
    let sig = sign(signing_key, bytes.as_slice());
    let signature = hex_encode(&sig);
    SignedEvent {
        sequence,
        event_type,
        payload,
        author,
        timestamp,
        signature,
        prev_hash: prev_hash.to_owned(),
    }
}

/// Why an event's signature check fails (or that it passes).
pub enum VerifyOutcome {
    Valid,
    /// A malformed author or signature, with the message.
    Crypto(Seq<char>),
    /// The signature does not verify.
    BadSignature,
}

/// The check of an event's signature: the author must be hex of 32 bytes
/// forming a public key, the signature hex of 64 bytes, and the signature
/// must verify over the event's canonical bytes.
#[verifier::opaque]
pub open spec fn verify_event_spec(e: SignedEvent) -> VerifyOutcome {
    let ab = encode_utf8(e.author@);
    let sb = encode_utf8(e.signature@);
    match hex_decode_spec(ab) {
        None => VerifyOutcome::Crypto("invalid author pubkey hex: "@ + hex_error_text(ab)),
        Some(pk) => if pk.len() != 32 {
            VerifyOutcome::Crypto(
                "invalid pubkey length: expected 32, got "@ + decimal(pk.len()),
            )
        } else if !ed25519_key_valid(pk) {
            VerifyOutcome::Crypto("invalid pubkey: "@ + ed25519_key_error_text(pk))
        } else {
            match hex_decode_spec(sb) {
                None => VerifyOutcome::Crypto("invalid signature hex: "@ + hex_error_text(sb)),
                Some(sig) => if sig.len() != 64 {
                    VerifyOutcome::Crypto(
                        "invalid signature length: expected 64, got "@ + decimal(sig.len()),
                    )
                } else if ed25519_verifies(
                    pk,
                    canonical_spec(
                        e.sequence,
                        e.event_type,
                        e.payload,
                        e.author@,
                        e.timestamp,
                        e.prev_hash@,
                    ),
                    sig,
                ) {
                    VerifyOutcome::Valid
                } else {
                    VerifyOutcome::BadSignature
                },
            }
        },
    }
}

/// The result an outcome stands for.
pub open spec fn outcome_matches(r: Result<(), HydraError>, o: VerifyOutcome) -> bool {
    match o {
        VerifyOutcome::Valid => r is Ok,
        VerifyOutcome::Crypto(m) => r matches Err(HydraError::Crypto(t)) && t@ == m,
        VerifyOutcome::BadSignature => r matches Err(HydraError::InvalidSignature),
    }
}

fn to_array32(v: &Vec<u8>) -> (a: [u8; 32])
    requires
        v@.len() == 32,
    ensures
        a@ == v@,
{
    let mut a = [0u8; 32];
    let mut i: usize = 0;
    while i < 32
        invariant
            i <= 32,
            v@.len() == 32,
            forall|k: int| 0 <= k < i ==> a@[k] == v@[k],
        decreases 32 - i,
    {
        a.set(i, v[i]);
        i = i + 1;
    }
    assert(a@ =~= v@);
    a
}

fn to_array64(v: &Vec<u8>) -> (a: [u8; 64])
    requires
        v@.len() == 64,
    ensures
        a@ == v@,
{
    let mut a = [0u8; 64];
    let mut i: usize = 0;
    while i < 64
        invariant
            i <= 64,
            v@.len() == 64,
            forall|k: int| 0 <= k < i ==> a@[k] == v@[k],
        decreases 64 - i,
    {
        a.set(i, v[i]);
        i = i + 1;
    }
    assert(a@ =~= v@);
    a
}

fn crypto_error(prefix: &str, detail: &str) -> (e: HydraError)
    ensures
        e matches HydraError::Crypto(m) && m@ == prefix@ + detail@,
{
    let mut m = String::from_str(prefix);
    push_str(&mut m, detail);
    HydraError::Crypto(m)
}

/// Check the signature of an event.
pub fn verify_event(event: &SignedEvent) -> (r: Result<(), HydraError>)
    ensures
        outcome_matches(r, verify_event_spec(*event)),
{
    proof {
        reveal(verify_event_spec);
    }
    let ab = event.author.as_str().as_bytes_vec();
    let pk_bytes = match hex_decode(ab.as_slice()) {
        Ok(v) => v,
        Err(m) => {
            return Err(crypto_error("invalid author pubkey hex: ", m.as_str()));
        },
    };
    if pk_bytes.len() != 32 {
        let mut m = String::from_str("invalid pubkey length: expected 32, got ");
        push_decimal(&mut m, pk_bytes.len() as u64);
        return Err(HydraError::Crypto(m));
    }
    let pk = to_array32(&pk_bytes);
    match public_key_error(&pk) {
        Some(m) => {
            return Err(crypto_error("invalid pubkey: ", m.as_str()));
        },
        None => {},
    }
    let sb = event.signature.as_str().as_bytes_vec();
    let sig_bytes = match hex_decode(sb.as_slice()) {
        Ok(v) => v,
        Err(m) => {
            return Err(crypto_error("invalid signature hex: ", m.as_str()));
        },
    };
    if sig_bytes.len() != 64 {
        let mut m = String::from_str("invalid signature length: expected 64, got ");
        push_decimal(&mut m, sig_bytes.len() as u64);
        return Err(HydraError::Crypto(m));
    }
    let sig = to_array64(&sig_bytes);
    let bytes = canonical_bytes(
        event.sequence,
        event.event_type,
        &event.payload,
        event.author.as_str(),
        &event.timestamp,
        event.prev_hash.as_str(),
    );
    if verify_raw(&pk, bytes.as_slice(), &sig) {
        Ok(())
    } else {
        Err(HydraError::InvalidSignature)
    }
}

/// A signed event passes the signature check as long as its signed fields
/// are left as they were: sign, then verify, succeeds.
pub proof fn lemma_signed_event_verifies(seed: Seq<u8>, e: SignedEvent)
    requires
        signed_by(seed, e),
    ensures
        verify_event_spec(e) is Valid,
{
    reveal(verify_event_spec);
    lemma_hex_roundtrip(ed25519_public(seed));
    lemma_hex_roundtrip(
        ed25519_signature(
            seed,
            canonical_spec(e.sequence, e.event_type, e.payload, e.author@, e.timestamp, e.prev_hash@),
        ),
    );
}

/// The hash of an event: SHA-256 of its JSON text, in hex.
pub open spec fn event_hash_spec(e: SignedEvent) -> Seq<char> {
    sha256_hex_spec(encode_utf8(event_json(e)))
}

/// The hash that links an event into the log.
pub fn event_hash(event: &SignedEvent) -> (h: String)
    ensures
        h@ == event_hash_spec(*event),
        h@.len() == 64,
{
    let json = event_to_json(event);
    let bytes = json.as_str().as_bytes_vec();
    sha256_hex(bytes.as_slice())
}

} // verus!
