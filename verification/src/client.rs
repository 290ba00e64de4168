//! Gemini response status codes, protocol errors and response headers.
use vstd::prelude::*;
use vstd::string::{StringExecFns, StringSliceAdditionalSpecFns};
use vstd::utf8::{decode_utf8, valid_utf8};

use crate::known_hosts::CertificateError;
use crate::num::{parse_unsigned, parse_unsigned_exec};

verus! {

/// The server broke the Gemini protocol.
#[derive(Debug, Clone, Copy, PartialEq, Eq, Structural)]
pub enum ProtoError {
    InvalidStatus(InvalidStatus),
    MetaNotFound,
}

/// A status code outside the Gemini ranges.
#[derive(Debug, Clone, Copy, PartialEq, Eq, Structural)]
pub struct InvalidStatus;

/// Errors of the Gemini, Titan and Misfin clients.
#[derive(Debug, Clone)]
pub enum Error {
    Io(String),
    InvalidProtocolData(ProtoError),
    InvalidUtf8,
    InvalidUrl(String),
    Tls(CertificateError),
    InvalidHost,
    TooManyRedirects(String),
    SchemeNotSupported,
    Timeout,
}

/// How a certificate error reads.
pub open spec fn certificate_error_text(e: CertificateError) -> Seq<char> {
    match e {
        CertificateError::Expired => "Certificate is expired"@,
        CertificateError::Revoked => "Certificate is revoked"@,
        CertificateError::NotActivated => "Certificate is not activated yet"@,
        CertificateError::BadIdentity => "Certificate has changed (possible MITM)"@,
        CertificateError::GenericError => "Generic certificate error"@,
    }
}

/// How a client error reads.
pub open spec fn error_text(e: Error) -> Seq<char> {
    match e {
        Error::Io(m) => "IO error: "@ + m@,
        Error::InvalidProtocolData(ProtoError::InvalidStatus(_)) => "The server doesn't follow the Gemini protocol: Invalid status"@,
        Error::InvalidProtocolData(ProtoError::MetaNotFound) => "The server doesn't follow the Gemini protocol: Meta not found (no <CR><LF>)"@,
        Error::InvalidUtf8 => "The server sent invalid UTF-8"@,
        Error::InvalidUrl(m) => "Invalid URL: "@ + m@,
        Error::Tls(c) => "TLS error: "@ + certificate_error_text(c),
        Error::InvalidHost => "Invalid host"@,
        Error::TooManyRedirects(m) => "Too many redirections. Last redirect was to "@ + m@,
        Error::SchemeNotSupported => "Only the gemini:// URL scheme is supported"@,
        Error::Timeout => "Connection timed out"@,
    }
}

impl Error {
    /// The error as text.
    pub fn to_text(&self) -> (s: String)
        ensures
            s@ == error_text(*self),
    {
        match self {
            Error::Io(m) => String::from_str("IO error: ").concat(m.as_str()),
            Error::InvalidProtocolData(ProtoError::InvalidStatus(_)) => String::from_str(
                "The server doesn't follow the Gemini protocol: Invalid status",
            ),
            Error::InvalidProtocolData(ProtoError::MetaNotFound) => String::from_str(
                "The server doesn't follow the Gemini protocol: Meta not found (no <CR><LF>)",
            ),
            Error::InvalidUtf8 => String::from_str("The server sent invalid UTF-8"),
            Error::InvalidUrl(m) => String::from_str("Invalid URL: ").concat(m.as_str()),
            Error::Tls(c) => {
                let t = match c {
                    CertificateError::Expired => "Certificate is expired",
                    CertificateError::Revoked => "Certificate is revoked",
                    CertificateError::NotActivated => "Certificate is not activated yet",
                    CertificateError::BadIdentity => "Certificate has changed (possible MITM)",
                    CertificateError::GenericError => "Generic certificate error",
                };
                String::from_str("TLS error: ").concat(t)
            },
            Error::InvalidHost => String::from_str("Invalid host"),
            Error::TooManyRedirects(m) => String::from_str(
                "Too many redirections. Last redirect was to ",
            ).concat(m.as_str()),
            Error::SchemeNotSupported => String::from_str("Only the gemini:// URL scheme is supported"),
            Error::Timeout => String::from_str("Connection timed out"),
        }
    }
}

/// The certificates a TLS handshake presented, captured for observation.
#[derive(Debug, Clone)]
pub struct TlsCertCapture {
    pub host: String,
    pub port: u16,
    pub certs_der: Vec<Vec<u8>>,
    pub timestamp: crate::time::Timestamp,
}

/// A Gemini response status, by its first digit.
#[derive(Debug, Copy, Clone, PartialOrd, PartialEq, Eq, Structural)]
pub enum Status {
    Input(u8),
    Success(u8),
    Redirect(u8),
    TempFail(u8),
    PermFail(u8),
    CertRequired(u8),
}

/// The status that a two-digit code stands for, or `None` outside 10..=69.
pub open spec fn status_of(s: u8) -> Option<Status> {
    let d = s / 10;
    if d == 1 {
        Some(Status::Input(s))
    } else if d == 2 {
        Some(Status::Success(s))
    } else if d == 3 {
        Some(Status::Redirect(s))
    } else if d == 4 {
        Some(Status::TempFail(s))
    } else if d == 5 {
        Some(Status::PermFail(s))
    } else if d == 6 {
        Some(Status::CertRequired(s))
    } else {
        None
    }
}

impl Status {
    /// Classify a status code by its first digit.
    pub fn try_from(s: u8) -> (r: Result<Status, InvalidStatus>)
        ensures
            match status_of(s) {
                Some(st) => r == Ok::<Status, InvalidStatus>(st),
                None => r is Err,
            },
    {
        match s / 10 {
            1 => Ok(Status::Input(s)),
            2 => Ok(Status::Success(s)),
            3 => Ok(Status::Redirect(s)),
            4 => Ok(Status::TempFail(s)),
            5 => Ok(Status::PermFail(s)),
            6 => Ok(Status::CertRequired(s)),
            _ => Err(InvalidStatus),
        }
    }
}

/// `String::from_utf8_lossy`: the characters of `bytes`, with each
/// ill-formed sequence replaced by U+FFFD.
pub uninterp spec fn utf8_lossy(bytes: Seq<u8>) -> Seq<char>;

/// Calls `String::from_utf8_lossy`. Its documentation states that a
/// well-formed input is decoded unchanged; how ill-formed input is replaced
/// is left to the name [`utf8_lossy`].
#[verifier::external_body]
pub(crate) fn string_from_utf8_lossy(bytes: &[u8]) -> (s: String)
    ensures
        s@ == utf8_lossy(bytes@),
        valid_utf8(bytes@) ==> s@ == decode_utf8(bytes@),
{
    String::from_utf8_lossy(bytes).into_owned()
}

/// Calls `std::str::from_utf8`: `Some` exactly for well-formed UTF-8, and
/// then a string slice whose encoding is `bytes`.
#[verifier::external_body]
pub(crate) fn str_from_utf8(bytes: &[u8]) -> (r: Option<&str>)
    ensures
        r is Some <==> valid_utf8(bytes@),
        r matches Some(s) ==> s.spec_bytes() == bytes@,
{
    std::str::from_utf8(bytes).ok()
}

/// Index of the first `\r\n` that starts at or after `i`, if any.
pub open spec fn find_crlf(b: Seq<u8>, i: int) -> Option<int>
    decreases b.len() - i,
{
    if i < 0 || i + 1 >= b.len() {
        None
    } else if b[i] == 13 && b[i + 1] == 10 {
        Some(i)
    } else {
        find_crlf(b, i + 1)
    }
}

/// Position of the first CRLF at or after `start`.
pub fn find_crlf_exec(b: &[u8], start: usize) -> (r: Option<usize>)
    ensures
        match (r, find_crlf(b@, start as int)) {
            (Some(i), Some(j)) => i == j && start <= i && i + 1 < b@.len(),
            (None, None) => true,
            _ => false,
        },
{
    let n = b.len();
    if n < 2 || start > n - 2 {
        return None;
    }
    let mut i = start;
    while i <= n - 2
        invariant
            start <= i <= n - 1,
            n == b@.len(),
            n >= 2,
            find_crlf(b@, start as int) == find_crlf(b@, i as int),
        decreases n - i,
    {
        if b[i] == 13 && b[i + 1] == 10 {
            return Some(i);
        }
        i = i + 1;
    }
    None
}

/// The header of a Gemini response in `b` (at least three bytes): the
/// status, the meta bytes between offset 3 and the first CRLF at or after
/// offset 3, and the offset at which the body starts.
pub open spec fn header_spec(b: Seq<u8>) -> Result<(Status, Seq<u8>, int), Error> {
    match find_crlf(b, 3) {
        None => Err(Error::InvalidProtocolData(ProtoError::MetaNotFound)),
        Some(e) => if !valid_utf8(b.subrange(0, 2)) {
            Err(Error::InvalidUtf8)
        } else {
            match parse_unsigned(b.subrange(0, 2), 255) {
                None => Err(Error::InvalidProtocolData(ProtoError::InvalidStatus(InvalidStatus))),
                Some(v) => match status_of(v as u8) {
                    None => Err(
                        Error::InvalidProtocolData(ProtoError::InvalidStatus(InvalidStatus)),
                    ),
                    Some(st) => Ok((st, b.subrange(3, e), e + 2)),
                },
            }
        },
    }
}

/// Parse the header of a Gemini response: `<status><any byte><meta>\r\n`.
/// Returns the status, the meta text (decoded leniently) and the offset of
/// the first body byte.
pub fn parse_header(buffer: &[u8]) -> (r: Result<(Status, String, usize), Error>)
    requires
        buffer@.len() >= 3,
    ensures
        match (r, header_spec(buffer@)) {
            (Ok((st, meta, off)), Ok((sst, smeta, soff))) => st == sst && meta@ == utf8_lossy(
                smeta,
            ) && off == soff,
            (Err(e), Err(se)) => e == se,
            _ => false,
        },
{
    let meta_end = match find_crlf_exec(buffer, 3) {
        Some(e) => e,
        None => {
            return Err(Error::InvalidProtocolData(ProtoError::MetaNotFound));
        },
    };
    let head = &buffer[0..2];
    if str_from_utf8(head).is_none() {
        return Err(Error::InvalidUtf8);
    }
    let code = match parse_unsigned_exec(head, 255) {
        Some(v) => v as u8,
        None => {
            return Err(Error::InvalidProtocolData(ProtoError::InvalidStatus(InvalidStatus)));
        },
    };
    let status = match Status::try_from(code) {
        Ok(st) => st,
        Err(_) => {
            return Err(Error::InvalidProtocolData(ProtoError::InvalidStatus(InvalidStatus)));
        },
    };
    let meta = string_from_utf8_lossy(&buffer[3..meta_end]);
    assert(meta_end + 1 < buffer@.len());
    assert(buffer@.len() == buffer.len());
    Ok((status, meta, meta_end + 2))
}

} // verus!
