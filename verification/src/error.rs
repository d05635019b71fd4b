//! The error kinds that every fallible operation of the library reports.

use vstd::prelude::*;
use vstd::string::StringExecFns;

verus! {

/// What went wrong. Most kinds carry a human-readable account; four are bare
/// tags.
#[derive(Debug)]
pub enum Error {
    Io(String),
    Serialization(String),
    Json(String),
    Crypto(String),
    Network(String),
    Protocol(String),
    InvalidParameter(String),
    PeerNotFound(String),
    Timeout,
    AuthenticationFailed,
    ConnectionClosed,
    ResourceExhausted,
    Internal(String),
}

impl Clone for Error {
    fn clone(&self) -> (copy: Error)
        ensures
            copy == *self,
    {
        match self {
            Error::Io(d) => Error::Io(d.clone()),
            Error::Serialization(d) => Error::Serialization(d.clone()),
            Error::Json(d) => Error::Json(d.clone()),
            Error::Crypto(d) => Error::Crypto(d.clone()),
            Error::Network(d) => Error::Network(d.clone()),
            Error::Protocol(d) => Error::Protocol(d.clone()),
            Error::InvalidParameter(d) => Error::InvalidParameter(d.clone()),
            Error::PeerNotFound(d) => Error::PeerNotFound(d.clone()),
            Error::Timeout => Error::Timeout,
            Error::AuthenticationFailed => Error::AuthenticationFailed,
            Error::ConnectionClosed => Error::ConnectionClosed,
            Error::ResourceExhausted => Error::ResourceExhausted,
            Error::Internal(d) => Error::Internal(d.clone()),
        }
    }
}

impl Error {
    /// The fixed words that open the rendering of each kind.
    pub open spec fn prefix(self) -> Seq<char> {
        match self {
            Error::Io(_) => "I/O error: "@,
            Error::Serialization(_) => "Serialization error: "@,
            Error::Json(_) => "JSON error: "@,
            Error::Crypto(_) => "Crypto error: "@,
            Error::Network(_) => "Network error: "@,
            Error::Protocol(_) => "Protocol error: "@,
            Error::InvalidParameter(_) => "Invalid parameter: "@,
            Error::PeerNotFound(_) => "Peer not found: "@,
            Error::Timeout => "Timeout error"@,
            Error::AuthenticationFailed => "Authentication failed"@,
            Error::ConnectionClosed => "Connection closed"@,
            Error::ResourceExhausted => "Resource exhausted"@,
            Error::Internal(_) => "Internal error: "@,
        }
    }

    /// The account that the error carries; empty for the bare tags.
    pub open spec fn detail(self) -> Seq<char> {
        match self {
            Error::Io(s) => s@,
            Error::Serialization(s) => s@,
            Error::Json(s) => s@,
            Error::Crypto(s) => s@,
            Error::Network(s) => s@,
            Error::Protocol(s) => s@,
            Error::InvalidParameter(s) => s@,
            Error::PeerNotFound(s) => s@,
            Error::Internal(s) => s@,
            _ => Seq::empty(),
        }
    }

    /// The rendering of the error: its prefix followed by its detail.
    pub open spec fn text(self) -> Seq<char> {
        self.prefix() + self.detail()
    }

    /// Renders the error for people.
    pub fn to_string(&self) -> (s: String)
        ensures
            s@ == self.text(),
    {
        match self {
            Error::Io(d) => String::from_str("I/O error: ").concat(d.as_str()),
            Error::Serialization(d) => String::from_str("Serialization error: ").concat(d.as_str()),
            Error::Json(d) => String::from_str("JSON error: ").concat(d.as_str()),
            Error::Crypto(d) => String::from_str("Crypto error: ").concat(d.as_str()),
            Error::Network(d) => String::from_str("Network error: ").concat(d.as_str()),
            Error::Protocol(d) => String::from_str("Protocol error: ").concat(d.as_str()),
            Error::InvalidParameter(d) => String::from_str("Invalid parameter: ").concat(
                d.as_str(),
            ),
            Error::PeerNotFound(d) => String::from_str("Peer not found: ").concat(d.as_str()),
            Error::Timeout => {
                let s = String::from_str("Timeout error");
                assert(s@ + Seq::<char>::empty() =~= s@);
                s
            },
            Error::AuthenticationFailed => {
                let s = String::from_str("Authentication failed");
                assert(s@ + Seq::<char>::empty() =~= s@);
                s
            },
            Error::ConnectionClosed => {
                let s = String::from_str("Connection closed");
                assert(s@ + Seq::<char>::empty() =~= s@);
                s
            },
            Error::ResourceExhausted => {
                let s = String::from_str("Resource exhausted");
                assert(s@ + Seq::<char>::empty() =~= s@);
                s
            },
            Error::Internal(d) => String::from_str("Internal error: ").concat(d.as_str()),
        }
    }
}

} // verus!
