//! The values that cross the embedding boundary: flat codes for errors,
//! protocols and message kinds, and the handles that stand for a node, a
//! message and a configuration on the other side.

#![allow(non_camel_case_types)]

use vstd::prelude::*;
use crate::error::Error;
use crate::types::{MessageType, ProtocolType};

verus! {

/// Stands for a node on the embedding side.
pub struct mesh_node {
    _private: [u8; 0],
}

/// Stands for a message on the embedding side.
pub struct mesh_message {
    _private: [u8; 0],
}

/// Stands for a configuration on the embedding side.
pub struct mesh_config {
    _private: [u8; 0],
}

/// The outcome of a call across the boundary.
#[derive(Clone, Copy, Debug, PartialEq, Eq, Structural)]
pub enum mesh_error {
    MESH_SUCCESS,
    MESH_ERROR_INVALID_PARAM,
    MESH_ERROR_OUT_OF_MEMORY,
    MESH_ERROR_NETWORK,
    MESH_ERROR_CRYPTO,
    MESH_ERROR_TIMEOUT,
    MESH_ERROR_PEER_NOT_FOUND,
    MESH_ERROR_PROTOCOL,
    MESH_ERROR_INTERNAL,
}

/// A protocol tag across the boundary.
#[derive(Clone, Copy, Debug, PartialEq, Eq, Structural)]
pub enum mesh_protocol_type {
    MESH_PROTOCOL_FLOODING,
    MESH_PROTOCOL_GOSSIP,
    MESH_PROTOCOL_CONSENSUS,
    MESH_PROTOCOL_DIRECT,
}

/// A message kind across the boundary.
#[derive(Clone, Copy, Debug, PartialEq, Eq, Structural)]
pub enum mesh_message_type {
    MESH_MSG_DATA,
    MESH_MSG_CONTROL,
    MESH_MSG_DISCOVERY,
    MESH_MSG_ENCRYPTED,
}

impl mesh_error {
    /// The number of the code: 0 for success, then -1, -2, ... in the order
    /// of declaration.
    pub open spec fn spec_code(self) -> int {
        match self {
            mesh_error::MESH_SUCCESS => 0,
            mesh_error::MESH_ERROR_INVALID_PARAM => -1,
            mesh_error::MESH_ERROR_OUT_OF_MEMORY => -2,
            mesh_error::MESH_ERROR_NETWORK => -3,
            mesh_error::MESH_ERROR_CRYPTO => -4,
            mesh_error::MESH_ERROR_TIMEOUT => -5,
            mesh_error::MESH_ERROR_PEER_NOT_FOUND => -6,
            mesh_error::MESH_ERROR_PROTOCOL => -7,
            mesh_error::MESH_ERROR_INTERNAL => -8,
        }
    }

    /// The number of the code.
    pub fn code(self) -> (c: i32)
        ensures
            c == self.spec_code(),
    {
        match self {
            mesh_error::MESH_SUCCESS => 0,
            mesh_error::MESH_ERROR_INVALID_PARAM => -1,
            mesh_error::MESH_ERROR_OUT_OF_MEMORY => -2,
            mesh_error::MESH_ERROR_NETWORK => -3,
            mesh_error::MESH_ERROR_CRYPTO => -4,
            mesh_error::MESH_ERROR_TIMEOUT => -5,
            mesh_error::MESH_ERROR_PEER_NOT_FOUND => -6,
            mesh_error::MESH_ERROR_PROTOCOL => -7,
            mesh_error::MESH_ERROR_INTERNAL => -8,
        }
    }

    /// The code with the given number, if there is one.
    pub fn from_code(c: i32) -> (r: Option<mesh_error>)
        ensures
            match r {
                Some(e) => e.spec_code() == c,
                None => c > 0 || c < -8,
            },
    {
        if c == 0 {
            Some(mesh_error::MESH_SUCCESS)
        } else if c == -1 {
            Some(mesh_error::MESH_ERROR_INVALID_PARAM)
        } else if c == -2 {
            Some(mesh_error::MESH_ERROR_OUT_OF_MEMORY)
        } else if c == -3 {
            Some(mesh_error::MESH_ERROR_NETWORK)
        } else if c == -4 {
            Some(mesh_error::MESH_ERROR_CRYPTO)
        } else if c == -5 {
            Some(mesh_error::MESH_ERROR_TIMEOUT)
        } else if c == -6 {
            Some(mesh_error::MESH_ERROR_PEER_NOT_FOUND)
        } else if c == -7 {
            Some(mesh_error::MESH_ERROR_PROTOCOL)
        } else if c == -8 {
            Some(mesh_error::MESH_ERROR_INTERNAL)
        } else {
            None
        }
    }

    /// The code's account for people.
    pub open spec fn spec_text(self) -> Seq<char> {
        match self {
            mesh_error::MESH_SUCCESS => "Success"@,
            mesh_error::MESH_ERROR_INVALID_PARAM => "Invalid parameter"@,
            mesh_error::MESH_ERROR_OUT_OF_MEMORY => "Out of memory"@,
            mesh_error::MESH_ERROR_NETWORK => "Network error"@,
            mesh_error::MESH_ERROR_CRYPTO => "Cryptography error"@,
            mesh_error::MESH_ERROR_TIMEOUT => "Timeout"@,
            mesh_error::MESH_ERROR_PEER_NOT_FOUND => "Peer not found"@,
            mesh_error::MESH_ERROR_PROTOCOL => "Protocol error"@,
            mesh_error::MESH_ERROR_INTERNAL => "Internal error"@,
        }
    }

    /// The code's account for people.
    pub fn text(self) -> (s: &'static str)
        ensures
            s@ == self.spec_text(),
    {
        match self {
            mesh_error::MESH_SUCCESS => "Success",
            mesh_error::MESH_ERROR_INVALID_PARAM => "Invalid parameter",
            mesh_error::MESH_ERROR_OUT_OF_MEMORY => "Out of memory",
            mesh_error::MESH_ERROR_NETWORK => "Network error",
            mesh_error::MESH_ERROR_CRYPTO => "Cryptography error",
            mesh_error::MESH_ERROR_TIMEOUT => "Timeout",
            mesh_error::MESH_ERROR_PEER_NOT_FOUND => "Peer not found",
            mesh_error::MESH_ERROR_PROTOCOL => "Protocol error",
            mesh_error::MESH_ERROR_INTERNAL => "Internal error",
        }
    }

    /// The code that reports a library error across the boundary.
    pub open spec fn spec_of(e: Error) -> mesh_error {
        match e {
            Error::InvalidParameter(_) => mesh_error::MESH_ERROR_INVALID_PARAM,
            Error::ResourceExhausted => mesh_error::MESH_ERROR_OUT_OF_MEMORY,
            Error::Io(_) => mesh_error::MESH_ERROR_NETWORK,
            Error::Network(_) => mesh_error::MESH_ERROR_NETWORK,
            Error::ConnectionClosed => mesh_error::MESH_ERROR_NETWORK,
            Error::Crypto(_) => mesh_error::MESH_ERROR_CRYPTO,
            Error::AuthenticationFailed => mesh_error::MESH_ERROR_CRYPTO,
            Error::Timeout => mesh_error::MESH_ERROR_TIMEOUT,
            Error::PeerNotFound(_) => mesh_error::MESH_ERROR_PEER_NOT_FOUND,
            Error::Protocol(_) => mesh_error::MESH_ERROR_PROTOCOL,
            Error::Serialization(_) => mesh_error::MESH_ERROR_PROTOCOL,
            Error::Json(_) => mesh_error::MESH_ERROR_PROTOCOL,
            Error::Internal(_) => mesh_error::MESH_ERROR_INTERNAL,
        }
    }

    /// The code that reports a library error across the boundary.
    pub fn of(e: &Error) -> (code: mesh_error)
        ensures
            code == mesh_error::spec_of(*e),
    {
        match e {
            Error::InvalidParameter(_) => mesh_error::MESH_ERROR_INVALID_PARAM,
            Error::ResourceExhausted => mesh_error::MESH_ERROR_OUT_OF_MEMORY,
            Error::Io(_) => mesh_error::MESH_ERROR_NETWORK,
            Error::Network(_) => mesh_error::MESH_ERROR_NETWORK,
            Error::ConnectionClosed => mesh_error::MESH_ERROR_NETWORK,
            Error::Crypto(_) => mesh_error::MESH_ERROR_CRYPTO,
            Error::AuthenticationFailed => mesh_error::MESH_ERROR_CRYPTO,
            Error::Timeout => mesh_error::MESH_ERROR_TIMEOUT,
            Error::PeerNotFound(_) => mesh_error::MESH_ERROR_PEER_NOT_FOUND,
            Error::Protocol(_) => mesh_error::MESH_ERROR_PROTOCOL,
            Error::Serialization(_) => mesh_error::MESH_ERROR_PROTOCOL,
            Error::Json(_) => mesh_error::MESH_ERROR_PROTOCOL,
            Error::Internal(_) => mesh_error::MESH_ERROR_INTERNAL,
        }
    }
}

impl mesh_protocol_type {
    /// The protocol tag that the code stands for.
    pub fn protocol(self) -> (p: ProtocolType)
        ensures
            p == match self {
                mesh_protocol_type::MESH_PROTOCOL_FLOODING => ProtocolType::Flooding,
                mesh_protocol_type::MESH_PROTOCOL_GOSSIP => ProtocolType::Gossip,
                mesh_protocol_type::MESH_PROTOCOL_CONSENSUS => ProtocolType::Consensus,
                mesh_protocol_type::MESH_PROTOCOL_DIRECT => ProtocolType::Direct,
            },
    {
        match self {
            mesh_protocol_type::MESH_PROTOCOL_FLOODING => ProtocolType::Flooding,
            mesh_protocol_type::MESH_PROTOCOL_GOSSIP => ProtocolType::Gossip,
            mesh_protocol_type::MESH_PROTOCOL_CONSENSUS => ProtocolType::Consensus,
            mesh_protocol_type::MESH_PROTOCOL_DIRECT => ProtocolType::Direct,
        }
    }

    /// The code with the given number (0 to 3), if there is one.
    pub fn from_code(c: i32) -> (r: Option<mesh_protocol_type>)
        ensures
            r is Some == (0 <= c <= 3),
            r == (if c == 0 {
                Some(mesh_protocol_type::MESH_PROTOCOL_FLOODING)
            } else if c == 1 {
                Some(mesh_protocol_type::MESH_PROTOCOL_GOSSIP)
            } else if c == 2 {
                Some(mesh_protocol_type::MESH_PROTOCOL_CONSENSUS)
            } else if c == 3 {
                Some(mesh_protocol_type::MESH_PROTOCOL_DIRECT)
            } else {
                None
            }),
    {
        if c == 0 {
            Some(mesh_protocol_type::MESH_PROTOCOL_FLOODING)
        } else if c == 1 {
            Some(mesh_protocol_type::MESH_PROTOCOL_GOSSIP)
        } else if c == 2 {
            Some(mesh_protocol_type::MESH_PROTOCOL_CONSENSUS)
        } else if c == 3 {
            Some(mesh_protocol_type::MESH_PROTOCOL_DIRECT)
        } else {
            None
        }
    }
}

impl mesh_message_type {
    /// The message kind that the code stands for.
    pub fn kind(self) -> (k: MessageType)
        ensures
            k == match self {
                mesh_message_type::MESH_MSG_DATA => MessageType::Data,
                mesh_message_type::MESH_MSG_CONTROL => MessageType::Control,
                mesh_message_type::MESH_MSG_DISCOVERY => MessageType::Discovery,
                mesh_message_type::MESH_MSG_ENCRYPTED => MessageType::Encrypted,
            },
    {
        match self {
            mesh_message_type::MESH_MSG_DATA => MessageType::Data,
            mesh_message_type::MESH_MSG_CONTROL => MessageType::Control,
            mesh_message_type::MESH_MSG_DISCOVERY => MessageType::Discovery,
            mesh_message_type::MESH_MSG_ENCRYPTED => MessageType::Encrypted,
        }
    }

    /// The code with the given number (0 to 3), if there is one.
    pub fn from_code(c: i32) -> (r: Option<mesh_message_type>)
        ensures
            r is Some == (0 <= c <= 3),
            r == (if c == 0 {
                Some(mesh_message_type::MESH_MSG_DATA)
            } else if c == 1 {
                Some(mesh_message_type::MESH_MSG_CONTROL)
            } else if c == 2 {
                Some(mesh_message_type::MESH_MSG_DISCOVERY)
            } else if c == 3 {
                Some(mesh_message_type::MESH_MSG_ENCRYPTED)
            } else {
                None
            }),
    {
        if c == 0 {
            Some(mesh_message_type::MESH_MSG_DATA)
        } else if c == 1 {
            Some(mesh_message_type::MESH_MSG_CONTROL)
        } else if c == 2 {
            Some(mesh_message_type::MESH_MSG_DISCOVERY)
        } else if c == 3 {
            Some(mesh_message_type::MESH_MSG_ENCRYPTED)
        } else {
            None
        }
    }
}

} // verus!
