//! Errors of the HYDRA certificate-observation network.
use vstd::prelude::*;
use vstd::string::StringExecFns;

verus! {

/// Errors of the HYDRA node; payloads are human-readable detail.
#[derive(Debug, Clone)]
pub enum HydraError {
    Io(String),
    Serde(String),
    Crypto(String),
    InvalidSignature,
    LogIntegrity(String),
    Peer(String),
    Transport(String),
    Config(String),
    Tor(String),
}

/// How an error reads.
pub open spec fn hydra_error_text(e: HydraError) -> Seq<char> {
    match e {
        HydraError::Io(m) => "IO error: "@ + m@,
        HydraError::Serde(m) => "serialization error: "@ + m@,
        HydraError::Crypto(m) => "crypto error: "@ + m@,
        HydraError::InvalidSignature => "invalid event signature"@,
        HydraError::LogIntegrity(m) => "event log integrity violation: "@ + m@,
        HydraError::Peer(m) => "peer error: "@ + m@,
        HydraError::Transport(m) => "transport error: "@ + m@,
        HydraError::Config(m) => "config error: "@ + m@,
        HydraError::Tor(m) => "tor error: "@ + m@,
    }
}

fn prefixed(prefix: &str, m: &String) -> (s: String)
    ensures
        s@ == prefix@ + m@,
{
    let mut s = String::from_str(prefix);
    s.append(m.as_str());
    s
}

impl HydraError {
    /// The error's message.
    pub fn to_text(&self) -> (s: String)
        ensures
            s@ == hydra_error_text(*self),
    {
        match self {
            HydraError::Io(m) => prefixed("IO error: ", m),
            HydraError::Serde(m) => prefixed("serialization error: ", m),
            HydraError::Crypto(m) => prefixed("crypto error: ", m),
            HydraError::InvalidSignature => String::from_str("invalid event signature"),
            HydraError::LogIntegrity(m) => prefixed("event log integrity violation: ", m),
            HydraError::Peer(m) => prefixed("peer error: ", m),
            HydraError::Transport(m) => prefixed("transport error: ", m),
            HydraError::Config(m) => prefixed("config error: ", m),
            HydraError::Tor(m) => prefixed("tor error: ", m),
        }
    }
}

} // verus!
