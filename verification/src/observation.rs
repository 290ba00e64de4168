//! Certificate observations: what a TLS handshake showed of a server.
use vstd::prelude::*;

use vstd::string::StringExecFns;

use crate::crypto::{sha256_hex, sha256_hex_spec};
use crate::error::HydraError;
use crate::event::{observation_json, push_observation_json};
use crate::paths::{data_file, hydra_data_dir, join_path, path_join};
use crate::strmap::str_eq;
use crate::time::{ts_before, Timestamp};
use x509_parser::extensions::GeneralName::{
    DNSName, DirectoryName, EDIPartyName, IPAddress, OtherName, RFC822Name, RegisteredID, URI, X400Address,
};

verus! {

/// The certificates a TLS handshake presented, as captured.
#[derive(Debug, Clone)]
pub struct RawCertCapture {
    pub host: String,
    pub port: u16,
    pub certs_der: Vec<Vec<u8>>,
    pub timestamp: Timestamp,
}

/// An observation of a server certificate with the metadata read out of
/// it.
#[derive(Debug, Clone)]
pub struct CertObservation {
    pub domain: String,
    pub port: u16,
    /// SHA-256 of the leaf certificate's DER encoding, in hex.
    pub cert_fingerprint: String,
    /// SHA-256 of each certificate of the chain, in hex.
    pub chain_fingerprints: Vec<String>,
    pub issuer: String,
    pub subject: String,
    pub san: Vec<String>,
    pub not_before: i64,
    pub not_after: i64,
    pub observed_at: Timestamp,
    pub observer_id: String,
}

/// What `x509_parser::parse_x509_certificate` reads from a DER
/// certificate: issuer and subject as text and the validity bounds as
/// Unix times; `None` when it does not parse.
pub uninterp spec fn x509_fields(der: Seq<u8>) -> Option<(Seq<char>, Seq<char>, i64, i64)>;

/// A subject alternative name of a certificate, one for each kind of
/// `x509_parser`'s `GeneralName`: names given as text keep their text and
/// an IP address its bytes; the kinds whose content is structured (other
/// names, directory names, registered ids, X.400 and EDI party names)
/// keep only their kind.
#[derive(Debug, Clone)]
pub enum AltName {
    OtherName,
    Rfc822Name(String),
    DnsName(String),
    X400Address,
    DirectoryName,
    EdiPartyName,
    Uri(String),
    IpAddress(Vec<u8>),
    RegisteredId,
}

/// An `AltName` with its text and bytes as sequences.
pub enum AltNameView {
    OtherName,
    Rfc822Name(Seq<char>),
    DnsName(Seq<char>),
    X400Address,
    DirectoryName,
    EdiPartyName,
    Uri(Seq<char>),
    IpAddress(Seq<u8>),
    RegisteredId,
}

impl View for AltName {
    type V = AltNameView;

    open spec fn view(&self) -> AltNameView {
        match self {
            AltName::OtherName => AltNameView::OtherName,
            AltName::Rfc822Name(s) => AltNameView::Rfc822Name(s@),
            AltName::DnsName(s) => AltNameView::DnsName(s@),
            AltName::X400Address => AltNameView::X400Address,
            AltName::DirectoryName => AltNameView::DirectoryName,
            AltName::EdiPartyName => AltNameView::EdiPartyName,
            AltName::Uri(s) => AltNameView::Uri(s@),
            AltName::IpAddress(b) => AltNameView::IpAddress(b@),
            AltName::RegisteredId => AltNameView::RegisteredId,
        }
    }
}

/// A certificate's subject alternative name extension: absent, present
/// more than once or not readable, or its names in order.
#[derive(Debug, Clone)]
pub enum SubjectAltNames {
    Missing,
    Malformed,
    Names(Vec<AltName>),
}

/// A `SubjectAltNames` with each name by its view.
pub enum SubjectAltNamesView {
    Missing,
    Malformed,
    Names(Seq<AltNameView>),
}

impl View for SubjectAltNames {
    type V = SubjectAltNamesView;

    open spec fn view(&self) -> SubjectAltNamesView {
        match self {
            SubjectAltNames::Missing => SubjectAltNamesView::Missing,
            SubjectAltNames::Malformed => SubjectAltNamesView::Malformed,
            SubjectAltNames::Names(v) => SubjectAltNamesView::Names(v@.map_values(|n: AltName| n@)),
        }
    }
}

/// What `subject_alternative_name()` gives for a DER certificate that
/// `x509_parser::parse_x509_certificate` reads; `None` when it does not
/// parse.
pub uninterp spec fn x509_alt_names(der: Seq<u8>) -> Option<SubjectAltNamesView>;

pub open spec fn strings_view(v: Seq<String>) -> Seq<Seq<char>> {
    v.map_values(|s: String| s@)
}

/// `x509_parser::parse_x509_certificate` of a leaf certificate, read out:
/// `issuer()` and `subject()` as text, and `validity()` as timestamps.
#[verifier::external_body]
fn parse_x509_fields(der: &[u8]) -> (r: Option<(String, String, i64, i64)>)
    ensures
        match r {
            Some((i, s, nb, na)) => x509_fields(der@) == Some((i@, s@, nb, na)),
            None => x509_fields(der@) is None,
        },
{
    match x509_parser::parse_x509_certificate(der) {
        Ok((_, cert)) => {
            let v = cert.validity();
            Some((cert.issuer().to_string(), cert.subject().to_string(), v.not_before.timestamp(), v.not_after.timestamp()))
        },
        Err(_) => None,
    }
}

/// `subject_alternative_name()` of a certificate that
/// `x509_parser::parse_x509_certificate` reads: an error (a duplicate or
/// unexpected extension) is `Malformed`, no extension `Missing`, else
/// each `GeneralName` as the `AltName` of its kind.
#[verifier::external_body]
fn parse_x509_alt_names(der: &[u8]) -> (r: Option<SubjectAltNames>)
    ensures
        match r {
            Some(a) => x509_alt_names(der@) == Some(a@),
            None => x509_alt_names(der@) is None,
        },
{
    x509_parser::parse_x509_certificate(der).ok().map(|(_, c)| match c.subject_alternative_name() {
        Ok(Some(e)) => SubjectAltNames::Names(e.value.general_names.iter().map(|n| match n {
            DNSName(t) => AltName::DnsName(t.to_string()),
            RFC822Name(t) => AltName::Rfc822Name(t.to_string()),
            URI(t) => AltName::Uri(t.to_string()),
            IPAddress(b) => AltName::IpAddress(b.to_vec()),
            OtherName(..) => AltName::OtherName,
            DirectoryName(_) => AltName::DirectoryName,
            RegisteredID(_) => AltName::RegisteredId,
            X400Address(_) => AltName::X400Address, EDIPartyName(_) => AltName::EdiPartyName,
        }).collect()),
        Ok(None) => SubjectAltNames::Missing, Err(_) => SubjectAltNames::Malformed,
    })
}

/// The DNS names among `s`, in order.
pub open spec fn dns_names_of(s: Seq<AltNameView>) -> Seq<Seq<char>>
    decreases s.len(),
{
    if s.len() == 0 {
        Seq::empty()
    } else {
        let p = dns_names_of(s.drop_last());
        match s.last() {
            AltNameView::DnsName(d) => p.push(d),
            _ => p,
        }
    }
}

/// The names an observation records: the DNS names of the extension;
/// none when it is missing or malformed.
pub open spec fn san_dns_names(a: SubjectAltNamesView) -> Seq<Seq<char>> {
    match a {
        SubjectAltNamesView::Names(s) => dns_names_of(s),
        _ => Seq::empty(),
    }
}

/// The DNS names of a subject alternative name extension, in order; none
/// when it is missing or malformed.
pub fn dns_names(a: &SubjectAltNames) -> (r: Vec<String>)
    ensures
        strings_view(r@) == san_dns_names(a@),
{
    let mut r: Vec<String> = Vec::new();
    match a {
        SubjectAltNames::Names(v) => {
            let ghost vs = v@.map_values(|n: AltName| n@);
            let mut i: usize = 0;
            while i < v.len()
                invariant
                    i <= v@.len(),
                    vs == v@.map_values(|n: AltName| n@),
                    strings_view(r@) == dns_names_of(vs.take(i as int)),
                decreases v@.len() - i,
            {
                let ghost r0 = r@;
                proof {
                    assert(vs.take(i + 1).drop_last() =~= vs.take(i as int));
                    assert(vs.take(i + 1).last() == v@[i as int]@);
                }
                match &v[i] {
                    AltName::DnsName(d) => {
                        r.push(d.clone());
                        assert(strings_view(r@) =~= strings_view(r0).push(d@));
                    },
                    _ => {},
                }
                i = i + 1;
            }
            assert(vs.take(v@.len() as int) =~= vs);
        },
        _ => {
            assert(strings_view(r@) =~= Seq::<Seq<char>>::empty());
        },
    }
    r
}

/// The fingerprints of a chain of DER certificates.
pub open spec fn chain_hex(ders: Seq<Vec<u8>>) -> Seq<Seq<char>> {
    ders.map_values(|d: Vec<u8>| sha256_hex_spec(d@))
}

/// `o` is the observation of the (non-empty) capture `c` made by
/// `observer`.
pub open spec fn observation_of(o: CertObservation, c: RawCertCapture, observer: Seq<char>) -> bool {
    let leaf = c.certs_der@[0]@;
    &&& o.domain@ == c.host@
    &&& o.port == c.port
    &&& o.cert_fingerprint@ == sha256_hex_spec(leaf)
    &&& strings_view(o.chain_fingerprints@) == chain_hex(c.certs_der@)
    &&& o.observed_at == c.timestamp
    &&& o.observer_id@ == observer
    &&& match x509_fields(leaf) {
        Some((i, s, nb, na)) => o.issuer@ == i && o.subject@ == s && o.not_before == nb && o.not_after
            == na && strings_view(o.san@) == match x509_alt_names(leaf) {
            Some(a) => san_dns_names(a),
            None => Seq::empty(),
        },
        None => o.issuer@.len() == 0 && o.subject@.len() == 0 && o.san@.len() == 0 && o.not_before
            == 0 && o.not_after == 0,
    }
}

impl CertObservation {
    /// The observation of a captured chain, made by `observer_id`. The leaf
    /// (the first certificate) gives the fingerprint and, when it parses,
    /// the metadata; when it does not, issuer and subject are empty, there
    /// are no names and the validity bounds are 0.
    pub fn from_raw(capture: &RawCertCapture, observer_id: &str) -> (r: Result<CertObservation, HydraError>)
        ensures
            capture.certs_der@.len() == 0 <==> r is Err,
            r matches Err(e) ==> e matches HydraError::Crypto(m) && m@ == "no certificates in capture"@,
            r matches Ok(o) ==> observation_of(o, *capture, observer_id@),
    {
        if capture.certs_der.len() == 0 {
            return Err(HydraError::Crypto(String::from_str("no certificates in capture")));
        }
        let leaf = &capture.certs_der[0];
        let cert_fingerprint = sha256_hex(leaf.as_slice());
        let mut chain_fingerprints: Vec<String> = Vec::new();
        let mut k: usize = 0;
        while k < capture.certs_der.len()
            invariant
                k <= capture.certs_der@.len(),
                strings_view(chain_fingerprints@) == chain_hex(capture.certs_der@.take(k as int)),
            decreases capture.certs_der@.len() - k,
        {
            let ghost c0 = chain_fingerprints@;
            let f = sha256_hex(capture.certs_der[k].as_slice());
            chain_fingerprints.push(f);
            proof {
                assert(capture.certs_der@.take(k + 1) =~= capture.certs_der@.take(k as int).push(
                    capture.certs_der@[k as int],
                ));
                assert(strings_view(chain_fingerprints@) =~= strings_view(c0).push(f@));
                assert(chain_hex(capture.certs_der@.take(k + 1)) =~= chain_hex(
                    capture.certs_der@.take(k as int),
                ).push(f@));
            }
            k = k + 1;
        }
        assert(capture.certs_der@.take(capture.certs_der@.len() as int) =~= capture.certs_der@);
        let (issuer, subject, san, not_before, not_after) = match parse_x509_fields(leaf.as_slice()) {
            Some((issuer, subject, not_before, not_after)) => {
                let san = match parse_x509_alt_names(leaf.as_slice()) {
                    Some(a) => dns_names(&a),
                    None => {
                        let e: Vec<String> = Vec::new();
                        assert(strings_view(e@) =~= Seq::<Seq<char>>::empty());
                        e
                    },
                };
                (issuer, subject, san, not_before, not_after)
            },
            None => {
                let e: Vec<String> = Vec::new();
                assert(strings_view(e@) =~= Seq::<Seq<char>>::empty());
                (String::new(), String::new(), e, 0i64, 0i64)
            },
        };
        Ok(
            CertObservation {
                domain: capture.host.clone(),
                port: capture.port,
                cert_fingerprint,
                chain_fingerprints,
                issuer,
                subject,
                san,
                not_before,
                not_after,
                observed_at: capture.timestamp,
                observer_id: String::from_str(observer_id),
            },
        )
    }
}

/// The append-only diary of observations, kept in one file.
#[derive(Debug, Clone)]
pub struct ObservationDiary {
    pub path: String,
}

impl ObservationDiary {
    /// The diary kept in `data_dir`.
    pub fn new(data_dir: &str) -> (d: Self)
        ensures
            d.path@ == path_join(data_dir@, "observations.jsonl"@),
    {
        ObservationDiary { path: join_path(data_dir, "observations.jsonl") }
    }

    /// The diary in the HYDRA node's directory.
    pub fn default_path() -> (d: Self)
        ensures
            exists|b: Seq<char>|
                d.path@ == path_join(#[trigger] data_file(b, "hydra"@), "observations.jsonl"@),
    {
        let dir = hydra_data_dir();
        let ghost b = choose|b: Seq<char>| dir@ == #[trigger] data_file(b, "hydra"@);
        let d = Self::new(dir.as_str());
        assert(d.path@ == path_join(data_file(b, "hydra"@), "observations.jsonl"@));
        d
    }

    /// The line to append to the diary's file for `obs`: its JSON and a
    /// newline.
    pub fn append(&self, obs: &CertObservation) -> (line: String)
        ensures
            line@ == observation_json(*obs) + seq!['\n'],
    {
        let mut line = String::new();
        push_observation_json(&mut line, obs);
        line.append("\n");
        proof {
            reveal_strlit("\n");
        }
        line
    }

    /// The observations of `domain` among `all` (the diary's contents), in
    /// diary order.
    pub fn get_for_domain<'a>(&self, all: &'a [CertObservation], domain: &str) -> (r: Vec<&'a CertObservation>)
        ensures
            r@.map_values(|o: &CertObservation| *o) == all@.filter(
                |o: CertObservation| o.domain@ == domain@,
            ),
    {
        let mut r: Vec<&CertObservation> = Vec::new();
        let mut i: usize = 0;
        while i < all.len()
            invariant
                i <= all@.len(),
                r@.map_values(|o: &CertObservation| *o) == all@.take(i as int).filter(
                    |o: CertObservation| o.domain@ == domain@,
                ),
            decreases all@.len() - i,
        {
            let ghost r0 = r@;
            if str_eq(all[i].domain.as_str(), domain) {
                r.push(&all[i]);
            }
            proof {
                let t = all@.take(i + 1);
                assert(t.drop_last() =~= all@.take(i as int));
                assert(t.last() == all@[i as int]);
                reveal(Seq::filter);
                assert(r@.map_values(|o: &CertObservation| *o) =~= if all@[i as int].domain@ == domain@ {
                    r0.map_values(|o: &CertObservation| *o).push(all@[i as int])
                } else {
                    r0.map_values(|o: &CertObservation| *o)
                });
            }
            i = i + 1;
        }
        assert(all@.take(all@.len() as int) =~= all@);
        r
    }

    /// The most recent observation of `domain` among `all`; of several
    /// equally recent, the first in diary order.
    pub fn latest_for_domain<'a>(&self, all: &'a [CertObservation], domain: &str) -> (r: Option<&'a CertObservation>)
        ensures
            match r {
                None => forall|j: int| 0 <= j < all@.len() ==> (#[trigger] all@[j]).domain@ != domain@,
                Some(o) => exists|i: int| 0 <= i < all@.len() && *o == all@[i] && is_latest(all@, domain@, i),
            },
    {
        let mut best: Option<usize> = None;
        let mut i: usize = 0;
        while i < all.len()
            invariant
                i <= all@.len(),
                match best {
                    None => forall|j: int| 0 <= j < i ==> (#[trigger] all@[j]).domain@ != domain@,
                    Some(b) => b < i && is_latest(all@.take(i as int), domain@, b as int),
                },
            decreases all@.len() - i,
        {
            if str_eq(all[i].domain.as_str(), domain) {
                match best {
                    None => {
                        best = Some(i);
                    },
                    Some(b) => {
                        if all[b].observed_at.before(&all[i].observed_at) {
                            best = Some(i);
                        }
                    },
                }
            }
            proof {
                let t = all@.take(i + 1);
                assert forall|j: int| 0 <= j < i implies t[j] == all@.take(i as int)[j] by {}
            }
            i = i + 1;
        }
        assert(all@.take(all@.len() as int) =~= all@);
        match best {
            Some(b) => Some(&all[b]),
            None => None,
        }
    }

    /// The number of observations in `all` (the diary's contents).
    pub fn count(&self, all: &[CertObservation]) -> (n: usize)
        ensures
            n == all@.len(),
    {
        all.len()
    }
}

/// Observation `i` of `s` is of `domain`, no observation of `domain` is
/// later, and those before it are earlier.
pub open spec fn is_latest(s: Seq<CertObservation>, domain: Seq<char>, i: int) -> bool {
    &&& 0 <= i < s.len()
    &&& s[i].domain@ == domain
    &&& forall|j: int| 0 <= j < s.len() && (#[trigger] s[j]).domain@ == domain ==> !ts_before(s[i].observed_at, s[j].observed_at)
    &&& forall|j: int| 0 <= j < i && (#[trigger] s[j]).domain@ == domain ==> ts_before(s[j].observed_at, s[i].observed_at)
}

} // verus!
