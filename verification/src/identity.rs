//! Client certificate identities and the hosts they are presented to.
use vstd::prelude::*;
use vstd::string::{StrSliceExecFns, StringExecFns};

use crate::crypto::{sha256_hex, sha256_hex_spec};
use crate::strmap::StrMap;
use crate::text::str_chars;
use crate::time::{rfc3339_offset, utc_date, utc_valid, valid_date, Timestamp};

verus! {

/// A stored client certificate.
#[derive(Debug)]
pub struct Identity {
    pub id: String,
    pub name: String,
    pub created_at: String,
    pub expires_at: String,
    pub common_name: String,
    pub fingerprint: String,
}

impl Clone for Identity {
    fn clone(&self) -> (r: Self)
        ensures
            r == *self,
    {
        Identity {
            id: self.id.clone(),
            name: self.name.clone(),
            created_at: self.created_at.clone(),
            expires_at: self.expires_at.clone(),
            common_name: self.common_name.clone(),
            fingerprint: self.fingerprint.clone(),
        }
    }
}

/// The identities and the host → identity id bindings.
#[derive(Debug, Clone)]
pub struct IdentityConfig {
    pub identities: Vec<Identity>,
    pub host_bindings: StrMap,
}

impl Default for IdentityConfig {
    fn default() -> (c: Self)
        ensures
            c.identities@.len() == 0,
            c.host_bindings@ == Map::<Seq<char>, Seq<char>>::empty(),
    {
        IdentityConfig { identities: Vec::new(), host_bindings: StrMap::new() }
    }
}

/// All known identities, in the order they were added.
pub fn list_identities(config: &IdentityConfig) -> (r: Vec<Identity>)
    ensures
        r@ == config.identities@,
{
    let mut r: Vec<Identity> = Vec::new();
    let mut i: usize = 0;
    while i < config.identities.len()
        invariant
            i <= config.identities@.len(),
            r@ == config.identities@.take(i as int),
        decreases config.identities@.len() - i,
    {
        r.push(config.identities[i].clone());
        i = i + 1;
        assert(r@ =~= config.identities@.take(i as int));
    }
    assert(r@ =~= config.identities@);
    r
}

/// The identities that are kept when the one with id `id` is deleted.
pub open spec fn identities_without(ids: Seq<Identity>, id: Seq<char>) -> Seq<Identity> {
    ids.filter(|i: Identity| i.id@ != id)
}

/// The bindings that are kept when identity `id` is deleted: those that
/// point elsewhere.
pub open spec fn bindings_without(b: Map<Seq<char>, Seq<char>>, id: Seq<char>) -> Map<
    Seq<char>,
    Seq<char>,
> {
    Map::new(|k: Seq<char>| b.contains_key(k) && b[k] != id, |k: Seq<char>| b[k])
}

/// Forget identity `id`: drop it from the list and drop every binding that
/// points to it.
pub fn delete_identity(config: &mut IdentityConfig, id: &str)
    ensures
        final(config).identities@ == identities_without(old(config).identities@, id@),
        final(config).host_bindings@ == bindings_without(old(config).host_bindings@, id@),
{
    let ghost old_ids = config.identities@;
    let mut kept: Vec<Identity> = Vec::new();
    let mut i: usize = 0;
    while i < config.identities.len()
        invariant
            old_ids == config.identities@,
            i <= old_ids.len(),
            kept@ == identities_without(old_ids.take(i as int), id@),
        decreases old_ids.len() - i,
    {
        let same = crate::strmap::str_eq(config.identities[i].id.as_str(), id);
        if !same {
            kept.push(config.identities[i].clone());
        }
        proof {
            let t = old_ids.take(i + 1);
            assert(t.drop_last() =~= old_ids.take(i as int));
            assert(t.last() == old_ids[i as int]);
            reveal(Seq::filter);
        }
        i = i + 1;
    }
    assert(old_ids.take(old_ids.len() as int) =~= old_ids);
    config.identities = kept;
    config.host_bindings.remove_with_value(id);
}

/// Present identity `identity_id` to `hostname` from now on.
pub fn bind_host(config: &mut IdentityConfig, hostname: &str, identity_id: &str)
    ensures
        final(config).host_bindings@ == old(config).host_bindings@.insert(hostname@, identity_id@),
        final(config).identities@ == old(config).identities@,
{
    config.host_bindings.insert(hostname, identity_id);
}

/// Stop presenting any identity to `hostname`.
pub fn unbind_host(config: &mut IdentityConfig, hostname: &str)
    ensures
        final(config).host_bindings@ == old(config).host_bindings@.remove(hostname@),
        final(config).identities@ == old(config).identities@,
{
    config.host_bindings.remove(hostname);
}

/// The id of the identity bound to `hostname`, if any.
pub fn get_host_binding(config: &IdentityConfig, hostname: &str) -> (r: Option<String>)
    ensures
        match r {
            Some(s) => config.host_bindings@.contains_key(hostname@) && config.host_bindings@[hostname@] == s@,
            None => !config.host_bindings@.contains_key(hostname@),
        },
{
    match config.host_bindings.get(hostname) {
        Some(s) => Some(s.to_owned()),
        None => None,
    }
}

/// The hosts bound to identity `identity_id`, each once.
pub fn get_bindings_for_identity(config: &IdentityConfig, identity_id: &str) -> (r: Vec<String>)
    ensures
        forall|i: int|
            0 <= i < r@.len() ==> config.host_bindings@.contains_key(#[trigger] r@[i]@)
                && config.host_bindings@[r@[i]@] == identity_id@,
        forall|k: Seq<char>| #[trigger]
            config.host_bindings@.contains_key(k) && config.host_bindings@[k] == identity_id@
                ==> exists|i: int| 0 <= i < r@.len() && r@[i]@ == k,
        forall|i: int, j: int| 0 <= i < j < r@.len() ==> (#[trigger] r@[i])@ != (#[trigger] r@[j])@,
{
    config.host_bindings.keys_with_value(identity_id)
}

// ---------------------------------------------------------------------
// Making and importing identities
// ---------------------------------------------------------------------

/// What `rustls_pemfile::certs` reads from `pem`: the DER bytes of each
/// certificate section in order, or the message of the first read error.
pub uninterp spec fn pem_certificates(pem: Seq<char>) -> Result<Seq<Seq<u8>>, Seq<char>>;

/// What `rustls_pemfile::private_key` reads from `pem`: the DER bytes of
/// the first private key section, `None` when there is none, or the read
/// error's message.
pub uninterp spec fn pem_private_key(pem: Seq<char>) -> Result<Option<Seq<u8>>, Seq<char>>;

pub open spec fn ders_view(v: Seq<Vec<u8>>) -> Seq<Seq<u8>> {
    v.map_values(|d: Vec<u8>| d@)
}

#[verifier::external_type_specification]
#[verifier::external_body]
pub struct ExKeyPair(rcgen::KeyPair);

/// `rcgen::KeyPair::generate`: a fresh random ECDSA P-256 key pair, or the
/// error's message. Nothing is claimed of the key.
#[verifier::external_body]
fn rcgen_generate_key() -> (r: Result<rcgen::KeyPair, String>) {
    match rcgen::KeyPair::generate() {
        Ok(k) => Ok(k),
        Err(e) => Err(e.to_string()),
    }
}

/// `rcgen::KeyPair::serialize_pem`: the key in PEM. Nothing is claimed of
/// the text.
#[verifier::external_body]
fn rcgen_key_pem(key: &rcgen::KeyPair) -> (pem: String) {
    key.serialize_pem()
}

/// `rcgen::CertificateParams::self_signed` with default parameters but the
/// common name and the validity dates (`rcgen::date_time_ymd`, which
/// panics on an invalid date or a year outside -9999 to 9999, hence the
/// precondition): the certificate as PEM and as DER, or the error's
/// message. The signature is random, so nothing is claimed of the result.
#[verifier::external_body]
fn rcgen_self_signed(
    common_name: &str,
    not_before: (i32, u8, u8),
    not_after: (i32, u8, u8),
    key: &rcgen::KeyPair,
) -> (r: Result<(String, Vec<u8>), String>)
    requires
        -9999 <= not_before.0 <= 9999,
        valid_date(not_before.0 as int, not_before.1 as int, not_before.2 as int),
        -9999 <= not_after.0 <= 9999,
        valid_date(not_after.0 as int, not_after.1 as int, not_after.2 as int),
{
    let mut params = rcgen::CertificateParams::default();
    let mut dn = rcgen::DistinguishedName::new();
    dn.push(rcgen::DnType::CommonName, common_name);
    params.distinguished_name = dn;
    params.not_before = rcgen::date_time_ymd(not_before.0, not_before.1, not_before.2);
    params.not_after = rcgen::date_time_ymd(not_after.0, not_after.1, not_after.2);
    match params.self_signed(key) {
        Ok(c) => Ok((c.pem(), c.der().to_vec())),
        Err(e) => Err(e.to_string()),
    }
}

/// `rustls_pemfile::certs`, collected: the DER bytes of each certificate.
#[verifier::external_body]
fn pemfile_certs(pem: &str) -> (r: Result<Vec<Vec<u8>>, String>)
    ensures
        match r {
            Ok(v) => pem_certificates(pem@) == Ok::<Seq<Seq<u8>>, Seq<char>>(ders_view(v@)),
            Err(e) => pem_certificates(pem@) == Err::<Seq<Seq<u8>>, Seq<char>>(e@),
        },
{
    let mut reader = std::io::BufReader::new(pem.as_bytes());
    match rustls_pemfile::certs(&mut reader).collect::<Result<Vec<_>, _>>() {
        Ok(v) => Ok(v.iter().map(|c| c.to_vec()).collect()),
        Err(e) => Err(e.to_string()),
    }
}

/// `rustls_pemfile::private_key`: the DER bytes of the first key, if any.
#[verifier::external_body]
fn pemfile_private_key(pem: &str) -> (r: Result<Option<Vec<u8>>, String>)
    ensures
        match r {
            Ok(Some(k)) => pem_private_key(pem@) == Ok::<Option<Seq<u8>>, Seq<char>>(Some(k@)),
            Ok(None) => pem_private_key(pem@) == Ok::<Option<Seq<u8>>, Seq<char>>(None),
            Err(e) => pem_private_key(pem@) == Err::<Option<Seq<u8>>, Seq<char>>(e@),
        },
{
    let mut reader = std::io::BufReader::new(pem.as_bytes());
    match rustls_pemfile::private_key(&mut reader) {
        Ok(Some(k)) => Ok(Some(k.secret_der().to_vec())),
        Ok(None) => Ok(None),
        Err(e) => Err(e.to_string()),
    }
}

/// `uuid::Uuid::new_v4().to_string()`: a random identifier in the
/// hyphenated form of 36 characters.
#[verifier::external_body]
fn new_uuid() -> (s: String)
    ensures
        s@.len() == 36,
{
    uuid::Uuid::new_v4().to_string()
}

/// The date an identity's time stamp shows: the text before its first
/// `T`, which is all of it when it has none.
pub fn format_date(iso: &str) -> (r: String)
    ensures
        r@ == iso@.take(r@.len() as int),
        forall|j: int| 0 <= j < r@.len() ==> r@[j] != 'T',
        r@.len() < iso@.len() ==> iso@[r@.len() as int] == 'T',
{
    let chars = str_chars(iso);
    let mut k: usize = 0;
    while k < chars.len() && chars[k] != 'T'
        invariant
            k <= chars@.len(),
            chars@ == iso@,
            forall|j: int| 0 <= j < k ==> chars@[j] != 'T',
        decreases chars@.len() - k,
    {
        k = k + 1;
    }
    String::from_str(iso.substring_char(0, k))
}

/// The certificates of a PEM text, as DER; at least one.
pub fn parse_cert_pem(pem: &str) -> (r: Result<Vec<Vec<u8>>, String>)
    ensures
        match pem_certificates(pem@) {
            Err(e) => r matches Err(m) && m@ == "Invalid certificate PEM: "@ + e,
            Ok(v) => if v.len() == 0 {
                r matches Err(m) && m@ == "No certificates found in PEM data"@
            } else {
                r matches Ok(c) && ders_view(c@) == v
            },
        },
{
    match pemfile_certs(pem) {
        Err(e) => Err(String::from_str("Invalid certificate PEM: ").concat(e.as_str())),
        Ok(v) => if v.len() == 0 {
            Err(String::from_str("No certificates found in PEM data"))
        } else {
            Ok(v)
        },
    }
}

/// The private key of a PEM text, as DER.
pub fn parse_key_pem(pem: &str) -> (r: Result<Vec<u8>, String>)
    ensures
        match pem_private_key(pem@) {
            Err(e) => r matches Err(m) && m@ == "Invalid key PEM: "@ + e,
            Ok(None) => r matches Err(m) && m@ == "No private key found in PEM data"@,
            Ok(Some(k)) => r matches Ok(d) && d@ == k,
        },
{
    match pemfile_private_key(pem) {
        Err(e) => Err(String::from_str("Invalid key PEM: ").concat(e.as_str())),
        Ok(None) => Err(String::from_str("No private key found in PEM data")),
        Ok(Some(k)) => Ok(k),
    }
}

/// A new identity, with the certificate and key to store in its
/// directory (`cert.pem`, `key.pem`).
#[derive(Debug)]
pub struct NewIdentity {
    pub identity: Identity,
    pub cert_pem: String,
    pub key_pem: String,
}

/// The identity is `name`'s, with a fresh 36-character id, its
/// fingerprint the SHA-256 of certificate `der` and its creation time an
/// instant's RFC 3339 text.
pub open spec fn made_identity(i: Identity, name: Seq<char>, der: Seq<u8>) -> bool {
    &&& i.id@.len() == 36
    &&& i.name@ == name
    &&& i.common_name@ == name
    &&& i.fingerprint@ == sha256_hex_spec(der)
    &&& exists|s: i64, n: u32| #[trigger] rfc3339_offset(s, n) == i.created_at@
}

/// What importing `cert` and `key` comes to: the DER of the first
/// certificate, or the error message.
pub open spec fn import_outcome(cert: Seq<char>, key: Seq<char>) -> Result<Seq<u8>, Seq<char>> {
    match pem_certificates(cert) {
        Err(e) => Err("Invalid certificate PEM: "@ + e),
        Ok(v) => if v.len() == 0 {
            Err("No certificates found in PEM data"@)
        } else {
            match pem_private_key(key) {
                Err(e) => Err("Invalid key PEM: "@ + e),
                Ok(None) => Err("No private key found in PEM data"@),
                Ok(Some(_)) => Ok(v[0]),
            }
        },
    }
}

/// Import a certificate and key given in PEM: both are checked, and the
/// identity (with no known expiry) is added to the configuration. On an
/// error the configuration is unchanged.
pub fn import_identity(config: &mut IdentityConfig, name: &str, cert_pem: &str, key_pem: &str) -> (r: Result<Identity, String>)
    ensures
        final(config).host_bindings@ == old(config).host_bindings@,
        match import_outcome(cert_pem@, key_pem@) {
            Err(m) => r matches Err(e) && e@ == m,
            Ok(der) => r matches Ok(i) && made_identity(i, name@, der) && i.expires_at@.len() == 0,
        },
        r is Err ==> final(config).identities@ == old(config).identities@,
        r matches Ok(i) ==> final(config).identities@ == old(config).identities@.push(i),
{
    let ders = match parse_cert_pem(cert_pem) {
        Ok(d) => d,
        Err(e) => return Err(e),
    };
    match parse_key_pem(key_pem) {
        Ok(_) => {},
        Err(e) => return Err(e),
    }
    let id = new_uuid();
    let now = Timestamp::now();
    let fingerprint = sha256_hex(ders[0].as_slice());
    let identity = Identity {
        id,
        name: String::from_str(name),
        created_at: now.to_rfc3339(),
        expires_at: String::new(),
        common_name: String::from_str(name),
        fingerprint,
    };
    proof {
        assert(rfc3339_offset(now@.0, now@.1) == identity.created_at@);
    }
    config.identities.push(identity.clone());
    Ok(identity)
}

/// A date as `rcgen::date_time_ymd` takes it, when rcgen can represent it.
fn cert_date(t: &Timestamp) -> (r: Option<(i32, u8, u8)>)
    ensures
        r matches Some(d) ==> -9999 <= d.0 <= 9999 && valid_date(d.0 as int, d.1 as int, d.2 as int)
            && (d.0, d.1 as u32, d.2 as u32) == t.date_spec(),
        r is None <==> !(-9999 <= t.date_spec().0 <= 9999),
{
    let (y, m, d) = t.date();
    if y < -9999 || y > 9999 {
        None
    } else {
        Some((y, m as u8, d as u8))
    }
}

/// The validity of a certificate made at `now` for `duration_days` days:
/// its end, and its first and last days as rcgen takes them. `None` when
/// the end is past what the clock can hold, or a day's year lies outside
/// -9999 to 9999.
pub fn validity_dates(now: &Timestamp, duration_days: u64) -> (r: Option<
    (Timestamp, (i32, u8, u8), (i32, u8, u8)),
>)
    ensures
        ({
            let s = now@.0 + 86400 * duration_days;
            let fits = 86400 * duration_days <= i64::MAX && s <= i64::MAX && utc_valid(s as i64, now@.1);
            &&& r is Some <==> fits && -9999 <= now.date_spec().0 <= 9999 && -9999 <= utc_date(
                s as i64,
                now@.1,
            ).0 <= 9999
            &&& r matches Some((e, a, b)) ==> {
                &&& e@ == (s as i64, now@.1)
                &&& (a.0, a.1 as u32, a.2 as u32) == now.date_spec()
                &&& (b.0, b.1 as u32, b.2 as u32) == e.date_spec()
                &&& -9999 <= a.0 <= 9999 && valid_date(a.0 as int, a.1 as int, a.2 as int)
                &&& -9999 <= b.0 <= 9999 && valid_date(b.0 as int, b.1 as int, b.2 as int)
            }
        }),
{
    let expires = match now.plus_days(duration_days) {
        Some(t) => t,
        None => return None,
    };
    let not_before = match cert_date(now) {
        Some(d) => d,
        None => return None,
    };
    let not_after = match cert_date(&expires) {
        Some(d) => d,
        None => return None,
    };
    Some((expires, not_before, not_after))
}

/// The identity that a certificate made by rcgen gives, valid from
/// `created` to `expires`: rcgen's error is reported, else the identity
/// (its fingerprint the SHA-256 of the DER) is added to the configuration
/// and handed back with the certificate and key texts. On an error the
/// configuration is unchanged.
pub fn identity_from_certificate(
    config: &mut IdentityConfig,
    id: String,
    name: &str,
    created: &Timestamp,
    expires: &Timestamp,
    certificate: Result<(String, Vec<u8>), String>,
    key_pem: String,
) -> (r: Result<NewIdentity, String>)
    ensures
        final(config).host_bindings@ == old(config).host_bindings@,
        match certificate {
            Err(e) => {
                &&& r matches Err(m) && m@ == "Certificate generation failed: "@ + e@
                &&& final(config).identities@ == old(config).identities@
            },
            Ok((pem, der)) => r matches Ok(n) && {
                &&& n.identity.id == id
                &&& n.identity.name@ == name@
                &&& n.identity.common_name@ == name@
                &&& n.identity.fingerprint@ == sha256_hex_spec(der@)
                &&& n.identity.fingerprint@.len() == 64
                &&& n.identity.created_at@ == rfc3339_offset(created@.0, created@.1)
                &&& n.identity.expires_at@ == rfc3339_offset(expires@.0, expires@.1)
                &&& n.cert_pem == pem
                &&& n.key_pem == key_pem
                &&& final(config).identities@ == old(config).identities@.push(n.identity)
            },
        },
{
    let (cert_pem, der) = match certificate {
        Ok(c) => c,
        Err(e) => return Err(String::from_str("Certificate generation failed: ").concat(e.as_str())),
    };
    let fingerprint = sha256_hex(der.as_slice());
    let identity = Identity {
        id,
        name: String::from_str(name),
        created_at: created.to_rfc3339(),
        expires_at: expires.to_rfc3339(),
        common_name: String::from_str(name),
        fingerprint,
    };
    config.identities.push(identity.clone());
    Ok(NewIdentity { identity, cert_pem, key_pem })
}

/// Make a new self-signed client certificate for `name`, valid from today
/// for `duration_days` days, and add it to the configuration. Whether it
/// succeeds rests on the clock and on rcgen: an expiry that the calendar
/// cannot hold (past the year 9999) is refused, and key or certificate
/// generation can fail (with rcgen's message). On an error the
/// configuration is unchanged.
pub fn generate_identity(config: &mut IdentityConfig, name: &str, duration_days: u64) -> (r: Result<NewIdentity, String>)
    ensures
        final(config).host_bindings@ == old(config).host_bindings@,
        r is Err ==> final(config).identities@ == old(config).identities@,
        r matches Err(m) ==> {
            ||| m@ == "Certificate validity out of range"@
            ||| exists|e: Seq<char>| #[trigger] ("Key generation failed: "@ + e) == m@
            ||| exists|e: Seq<char>| #[trigger] ("Certificate generation failed: "@ + e) == m@
        },
        r matches Ok(n) ==> {
            &&& final(config).identities@ == old(config).identities@.push(n.identity)
            &&& n.identity.id@.len() == 36
            &&& n.identity.name@ == name@
            &&& n.identity.common_name@ == name@
            &&& n.identity.fingerprint@.len() == 64
            &&& exists|der: Seq<u8>| n.identity.fingerprint@ == #[trigger] sha256_hex_spec(der)
            &&& exists|s: i64, ns: u32|
                #![trigger rfc3339_offset(s, ns)]
                rfc3339_offset(s, ns) == n.identity.created_at@ && rfc3339_offset(
                    (s + 86400 * duration_days) as i64,
                    ns,
                ) == n.identity.expires_at@
        },
{
    let id = new_uuid();
    let now = Timestamp::now();
    let (expires, not_before, not_after) = match validity_dates(&now, duration_days) {
        Some(v) => v,
        None => return Err(String::from_str("Certificate validity out of range")),
    };
    let key = match rcgen_generate_key() {
        Ok(k) => k,
        Err(e) => return Err(String::from_str("Key generation failed: ").concat(e.as_str())),
    };
    let certificate = rcgen_self_signed(name, not_before, not_after, &key);
    let key_pem = rcgen_key_pem(&key);
    identity_from_certificate(config, id, name, &now, &expires, certificate, key_pem)
}

} // verus!
