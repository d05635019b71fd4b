//! Peer-to-peer mesh networking: message model, wire codec, dissemination
//! protocols, transport and node state machines, and the cryptographic
//! primitives that protect traffic between peers.
//!
//! The library decides; the program that embeds it performs. Sockets,
//! timers and tasks live outside: the embedding program reads and writes
//! bytes, and hands the library what arrived and asks it what to send.

use vstd::prelude::*;

pub mod codec;
pub mod consensus;
pub mod crypto;
pub mod error;
pub mod ffi;
pub mod hexcode;
pub mod idmap;
pub mod network;
pub mod node;
mod platform;
pub mod protocol;
pub mod seen;
pub mod text;
pub mod types;

pub use crate::crypto::{
    derive_mesh_keys, derive_session_keys, hkdf_sha256, random_bytes, sha256, sha512,
    AesGcmCrypto, ChaChaCrypto, Ed25519Signer, AES_KEY_SIZE, CHACHA_KEY_SIZE, NONCE_SIZE,
    SIGNATURE_SIZE,
};
pub use crate::error::Error;
pub use crate::node::{create_node, Inbox, MessageHandler, Node};
pub use crate::types::{
    Endpoint, IpAddress, MeshStats, Message, MessageType, NodeConfig, NodeId, Peer, ProtocolType,
};

verus! {

/// The version of this library.
pub fn version() -> (v: &'static str)
    ensures
        v@ == "0.1.0"@,
{
    "0.1.0"
}

} // verus!
