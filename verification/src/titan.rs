//! Titan uploads: the request that carries a payload to a server.
use vstd::prelude::*;
use vstd::string::{StrSliceExecFns, StringExecFns, StringSliceAdditionalSpecFns};
use vstd::utf8::encode_utf8;

use crate::client::Error;
use crate::num::{decimal, push_decimal};
use crate::urlparse::{parse_url_parts, url_components};

verus! {

/// Port that Titan servers listen on unless a URL names another.
pub const DEFAULT_PORT: u16 = 1965;

/// An upload: where, what type, an optional token, and the bytes.
#[derive(Debug, Clone)]
pub struct TitanRequest {
    pub url: String,
    pub mime: String,
    pub token: Option<String>,
    pub payload: Vec<u8>,
}

/// The request line of an upload:
/// `titan://host[:port]path;mime=M;size=N[;token=T]`, the port only when
/// it is not the default one and the token only when it is not empty.
pub open spec fn titan_line(
    host: Seq<char>,
    port: u16,
    path: Seq<char>,
    mime: Seq<char>,
    token: Option<Seq<char>>,
    size: nat,
) -> Seq<char> {
    "titan://"@ + host + (if port != 1965 {
        ":"@ + decimal(port as nat)
    } else {
        Seq::empty()
    }) + path + ";mime="@ + mime + ";size="@ + decimal(size) + match token {
        Some(t) => if t.len() > 0 {
            ";token="@ + t
        } else {
            Seq::empty()
        },
        None => Seq::empty(),
    }
}

/// Where an upload goes and what is sent there.
#[derive(Debug, Clone)]
pub struct PreparedUpload {
    pub host: String,
    pub port: u16,
    /// The request line, without its line ending.
    pub request_line: String,
    /// The request line, `\r\n`, then the payload.
    pub bytes: Vec<u8>,
}

fn push_str(s: &mut String, t: &str)
    ensures
        final(s)@ == old(s)@ + t@,
{
    s.append(t);
}

/// Prepare an upload: the URL must parse, use the `titan` scheme and name
/// a host; the port defaults to 1965.
pub fn prepare_upload(request: &TitanRequest) -> (r: Result<PreparedUpload, Error>)
    ensures
        match url_components(request.url@) {
            Err(msg) => r matches Err(Error::InvalidUrl(m)) && m@ == msg,
            Ok((scheme, host, port, path)) => if scheme != "titan"@ {
                r matches Err(Error::SchemeNotSupported)
            } else {
                match host {
                    None => r matches Err(Error::InvalidHost),
                    Some(h) => r matches Ok(u) && {
                        let p = match port {
                            Some(x) => x,
                            None => 1965u16,
                        };
                        let tok = match request.token {
                            Some(t) => Some(t@),
                            None => None,
                        };
                        &&& u.host@ == h
                        &&& u.port == p
                        &&& u.request_line@ == titan_line(
                            h,
                            p,
                            path,
                            request.mime@,
                            tok,
                            request.payload@.len(),
                        )
                        &&& u.bytes@ == encode_utf8(u.request_line@ + "\r\n"@)
                            + request.payload@
                    },
                }
            },
        },
{
    let parts = match parse_url_parts(request.url.as_str()) {
        Ok(p) => p,
        Err(e) => {
            return Err(Error::InvalidUrl(e));
        },
    };
    if !crate::strmap::str_eq(parts.scheme.as_str(), "titan") {
        return Err(Error::SchemeNotSupported);
    }
    let host = match parts.host {
        Some(h) => h,
        None => {
            return Err(Error::InvalidHost);
        },
    };
    let port = match parts.port {
        Some(p) => p,
        None => 1965u16,
    };
    let mut line = String::from_str("titan://");
    push_str(&mut line, host.as_str());
    if port != 1965 {
        push_str(&mut line, ":");
        push_decimal(&mut line, port as u64);
    }
    push_str(&mut line, parts.path.as_str());
    push_str(&mut line, ";mime=");
    push_str(&mut line, request.mime.as_str());
    push_str(&mut line, ";size=");
    push_decimal(&mut line, request.payload.len() as u64);
    match &request.token {
        Some(t) => {
            if t.as_str().unicode_len() > 0 {
                push_str(&mut line, ";token=");
                push_str(&mut line, t.as_str());
            }
        },
        None => {},
    }
    let mut full = line.clone();
    push_str(&mut full, "\r\n");
    let mut bytes = full.as_str().as_bytes_vec();
    let mut i: usize = 0;
    let ghost head = bytes@;
    while i < request.payload.len()
        invariant
            i <= request.payload@.len(),
            bytes@ == head + request.payload@.take(i as int),
        decreases request.payload@.len() - i,
    {
        bytes.push(request.payload[i]);
        i = i + 1;
        assert(bytes@ =~= head + request.payload@.take(i as int));
    }
    assert(request.payload@.take(request.payload@.len() as int) =~= request.payload@);
    Ok(PreparedUpload { host, port, request_line: line, bytes })
}

} // verus!
