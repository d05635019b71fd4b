//! The data model: node identifiers, messages, peers, configuration and
//! counters.

use vstd::prelude::*;
use crate::hexcode::{decode_hex, encode_hex, hex_chars, hex_decoding, HexError};
use crate::platform::{fill_random, random_u64, unix_seconds, uuid_v4_bytes};
use vstd::string::StringSliceAdditionalSpecFns;

verus! {

/// Number of bytes in a node identifier.
pub const NODE_ID_LEN: usize = 32;

/// A 256-bit opaque node identifier. Two identifiers are equal when their
/// bytes are equal.
#[derive(Clone, Copy, Debug, Eq, Hash)]
pub struct NodeId(pub [u8; 32]);

impl PartialEq for NodeId {
    fn eq(&self, other: &NodeId) -> (r: bool) {
        let mut i: usize = 0;
        while i < 32
            invariant
                i <= 32,
                forall|j: int| 0 <= j < i ==> self.0[j] == other.0[j],
            decreases 32 - i,
        {
            if self.0[i] != other.0[i] {
                return false;
            }
            i += 1;
        }
        assert(self.0@ =~= other.0@);
        true
    }
}

impl vstd::std_specs::cmp::PartialEqSpecImpl for NodeId {
    open spec fn obeys_eq_spec() -> bool {
        true
    }

    open spec fn eq_spec(&self, other: &NodeId) -> bool {
        self.0@ == other.0@
    }
}

impl View for NodeId {
    type V = Seq<u8>;

    open spec fn view(&self) -> Seq<u8> {
        self.0@
    }
}

impl NodeId {
    /// Wraps 32 raw bytes as an identifier.
    pub fn from_bytes(bytes: [u8; 32]) -> (id: NodeId)
        ensures
            id@ == bytes@,
            id.0 == bytes,
    {
        NodeId(bytes)
    }

    /// The 32 raw bytes of the identifier.
    pub fn as_bytes(&self) -> (bytes: &[u8; 32])
        ensures
            bytes@ == self@,
            *bytes == self.0,
    {
        &self.0
    }

    /// A fresh identifier: a version 4 UUID in the first 16 bytes, 16 bytes
    /// from the random generator after it. Only the UUID's version and
    /// variant marks are fixed.
    pub fn new() -> (id: NodeId)
        ensures
            0x40 <= id@[6] <= 0x4f,
            0x80 <= id@[8] <= 0xbf,
    {
        let head = uuid_v4_bytes();
        let mut random: Vec<u8> = vec![0u8; 16];
        fill_random(&mut random);
        let mut tail = [0u8; 16];
        let mut i: usize = 0;
        while i < 16
            invariant
                i <= 16,
                random.len() == 16,
            decreases 16 - i,
        {
            tail[i] = random[i];
            i += 1;
        }
        NodeId::from_halves(&head, &tail)
    }

    /// The identifier whose first 16 bytes are `head` and whose last 16 are
    /// `tail`.
    pub fn from_halves(head: &[u8; 16], tail: &[u8; 16]) -> (id: NodeId)
        ensures
            id@ == head@ + tail@,
    {
        let mut bytes = [0u8; 32];
        let mut i: usize = 0;
        while i < 16
            invariant
                i <= 16,
                forall|j: int| 0 <= j < i ==> bytes[j] == head[j],
                forall|j: int| 0 <= j < i ==> bytes[16 + j] == tail[j],
            decreases 16 - i,
        {
            bytes[i] = head[i];
            bytes[16 + i] = tail[i];
            i += 1;
        }
        assert(bytes@ =~= head@ + tail@);
        NodeId(bytes)
    }

    /// The canonical text of the identifier: 64 lowercase hexadecimal digits.
    pub fn to_hex(&self) -> (text: String)
        ensures
            text@ == hex_chars(self@),
    {
        encode_hex(self.0.as_slice())
    }

    /// The short form used where space matters: the first 16 digits of the
    /// canonical text.
    pub fn to_string(&self) -> (text: String)
        ensures
            text@ == hex_chars(self@.subrange(0, 8)),
            text@ == hex_chars(self@).subrange(0, 16),
    {
        let head = vstd::slice::slice_subrange(self.0.as_slice(), 0, 8);
        let text = encode_hex(head);
        assert(hex_chars(self@.subrange(0, 8)) =~= hex_chars(self@).subrange(0, 16));
        text
    }

    /// What `text` stands for as an identifier: its hexadecimal decoding, if
    /// that has exactly 32 bytes.
    pub open spec fn parse(text: Seq<u8>) -> Result<Seq<u8>, HexError> {
        match hex_decoding(text) {
            Ok(bytes) => if bytes.len() == 32 {
                Ok(bytes)
            } else {
                Err(HexError::InvalidStringLength)
            },
            Err(e) => Err(e),
        }
    }

    /// Reads an identifier from hexadecimal text of either case.
    pub fn from_hex(text: &str) -> (r: Result<NodeId, HexError>)
        ensures
            match r {
                Ok(id) => NodeId::parse(text.spec_bytes()) == Ok::<Seq<u8>, HexError>(id@),
                Err(e) => NodeId::parse(text.spec_bytes()) == Err::<Seq<u8>, HexError>(e),
            },
    {
        match decode_hex(text) {
            Ok(bytes) => {
                if bytes.len() != 32 {
                    return Err(HexError::InvalidStringLength);
                }
                let mut arr = [0u8; 32];
                let mut i: usize = 0;
                while i < 32
                    invariant
                        i <= 32,
                        bytes.len() == 32,
                        forall|j: int| 0 <= j < i ==> arr[j] == bytes[j],
                    decreases 32 - i,
                {
                    arr[i] = bytes[i];
                    i += 1;
                }
                assert(arr@ =~= bytes@);
                Ok(NodeId(arr))
            },
            Err(e) => Err(e),
        }
    }
}

impl Default for NodeId {
    fn default() -> (id: NodeId)
        ensures
            0x40 <= id@[6] <= 0x4f,
            0x80 <= id@[8] <= 0xbf,
    {
        NodeId::new()
    }
}

/// What a message carries.
#[derive(Clone, Copy, Debug, PartialEq, Eq, Hash, Structural)]
pub enum MessageType {
    Data,
    Control,
    Discovery,
    Encrypted,
    Broadcast,
    Unicast,
    Multicast,
}

/// The dissemination discipline that handles a message.
#[derive(Clone, Copy, Debug, PartialEq, Eq, Hash, Structural)]
pub enum ProtocolType {
    Flooding,
    Gossip,
    Consensus,
    Direct,
}


/// Hop limit given to a message at its origin.
pub const DEFAULT_TTL: u32 = 64;

/// Seconds without a sighting after which a peer no longer counts as alive.
pub const PEER_ALIVE_SECS: u64 = 300;

/// A copy of `bytes`.
pub fn copy_bytes(bytes: &Vec<u8>) -> (copy: Vec<u8>)
    ensures
        copy@ == bytes@,
{
    let mut copy: Vec<u8> = Vec::with_capacity(bytes.len());
    let mut i: usize = 0;
    while i < bytes.len()
        invariant
            i <= bytes.len(),
            copy@ == bytes@.subrange(0, i as int),
        decreases bytes.len() - i,
    {
        copy.push(bytes[i]);
        assert(copy@ =~= bytes@.subrange(0, i + 1));
        i += 1;
    }
    assert(bytes@.subrange(0, bytes.len() as int) =~= bytes@);
    copy
}

/// A message as it travels through the mesh.
#[derive(Debug)]
pub struct Message {
    /// Set once at the origin; the key by which duplicates are recognised.
    pub id: u64,
    pub message_type: MessageType,
    /// Selects the protocol that handles the message.
    pub protocol_type: ProtocolType,
    /// The origin, never rewritten in transit.
    pub from: NodeId,
    /// The destination; absent for a broadcast.
    pub to: Option<NodeId>,
    pub payload: Vec<u8>,
    /// Seconds since the epoch at the origin.
    pub timestamp: u64,
    pub ttl: u32,
    /// Starts at 0 and grows by one on each forward.
    pub hops: u32,
    /// A detached signature over the other fields, if any.
    pub signature: Option<Vec<u8>>,
}

/// The mathematical content of a `Message`.
pub ghost struct MessageView {
    pub id: u64,
    pub message_type: MessageType,
    pub protocol_type: ProtocolType,
    pub from: Seq<u8>,
    pub to: Option<Seq<u8>>,
    pub payload: Seq<u8>,
    pub timestamp: u64,
    pub ttl: u32,
    pub hops: u32,
    pub signature: Option<Seq<u8>>,
}

impl MessageView {
    /// The message that an origin creates: kind `Data`, protocol `Direct`, no
    /// destination, the default hop limit, no hops, no signature.
    pub open spec fn originated(id: u64, timestamp: u64, from: Seq<u8>, payload: Seq<u8>) -> MessageView {
        MessageView {
            id,
            message_type: MessageType::Data,
            protocol_type: ProtocolType::Direct,
            from,
            to: None,
            payload,
            timestamp,
            ttl: DEFAULT_TTL,
            hops: 0,
            signature: None,
        }
    }

    /// The hop limit is used up: the message may not be retransmitted.
    pub open spec fn is_expired(self) -> bool {
        self.hops >= self.ttl
    }

    /// A unicast or multicast message without a destination.
    pub open spec fn is_malformed(self) -> bool {
        self.to is None && (self.message_type == MessageType::Unicast || self.message_type
            == MessageType::Multicast)
    }

    /// The message as a forwarder under `protocol` passes it on: one more
    /// hop, the forwarder's protocol tag, everything else untouched.
    pub open spec fn forwarded(self, protocol: ProtocolType) -> MessageView {
        MessageView { hops: (self.hops + 1) as u32, protocol_type: protocol, ..self }
    }
}

impl View for Message {
    type V = MessageView;

    open spec fn view(&self) -> MessageView {
        MessageView {
            id: self.id,
            message_type: self.message_type,
            protocol_type: self.protocol_type,
            from: self.from@,
            to: match self.to {
                Some(id) => Some(id@),
                None => None,
            },
            payload: self.payload@,
            timestamp: self.timestamp,
            ttl: self.ttl,
            hops: self.hops,
            signature: match self.signature {
                Some(s) => Some(s@),
                None => None,
            },
        }
    }
}

impl Clone for Message {
    fn clone(&self) -> (copy: Message)
        ensures
            copy@ == self@,
    {
        let signature = match &self.signature {
            Some(s) => Some(copy_bytes(s)),
            None => None,
        };
        Message {
            id: self.id,
            message_type: self.message_type,
            protocol_type: self.protocol_type,
            from: self.from,
            to: self.to,
            payload: copy_bytes(&self.payload),
            timestamp: self.timestamp,
            ttl: self.ttl,
            hops: self.hops,
            signature,
        }
    }
}

impl Message {
    /// A new message from `from`. Its identifier is drawn at random and its
    /// timestamp read from the clock; everything else is fixed.
    pub fn new(from: NodeId, payload: Vec<u8>) -> (m: Message)
        ensures
            m@ == MessageView::originated(m.id, m.timestamp, from@, payload@),
    {
        let id = random_u64();
        let timestamp = unix_seconds();
        Message::originate(id, timestamp, from, payload)
    }

    /// The message that `from` creates with the given identifier at the given
    /// time.
    pub fn originate(id: u64, timestamp: u64, from: NodeId, payload: Vec<u8>) -> (m: Message)
        ensures
            m@ == MessageView::originated(id, timestamp, from@, payload@),
    {
        Message {
            id,
            message_type: MessageType::Data,
            protocol_type: ProtocolType::Direct,
            from,
            to: None,
            payload,
            timestamp,
            ttl: DEFAULT_TTL,
            hops: 0,
            signature: None,
        }
    }

    /// A new message for every node of the mesh.
    pub fn broadcast(from: NodeId, payload: Vec<u8>) -> (m: Message)
        ensures
            m@ == (MessageView {
                message_type: MessageType::Broadcast,
                ..MessageView::originated(m.id, m.timestamp, from@, payload@)
            }),
    {
        let mut msg = Message::new(from, payload);
        msg.message_type = MessageType::Broadcast;
        msg
    }

    /// A new message for the node `to` alone.
    pub fn unicast(from: NodeId, to: NodeId, payload: Vec<u8>) -> (m: Message)
        ensures
            m@ == (MessageView {
                message_type: MessageType::Unicast,
                to: Some(to@),
                ..MessageView::originated(m.id, m.timestamp, from@, payload@)
            }),
    {
        let mut msg = Message::new(from, payload);
        msg.message_type = MessageType::Unicast;
        msg.to = Some(to);
        msg
    }

    /// Whether the hop limit is used up.
    pub fn is_expired(&self) -> (expired: bool)
        ensures
            expired == self@.is_expired(),
    {
        self.hops >= self.ttl
    }

    /// Whether the message names no destination although its kind needs one.
    pub fn is_malformed(&self) -> (malformed: bool)
        ensures
            malformed == self@.is_malformed(),
    {
        self.to.is_none() && (self.message_type == MessageType::Unicast || self.message_type
            == MessageType::Multicast)
    }

    /// Counts one more hop.
    pub fn increment_hops(&mut self)
        requires
            old(self).hops < u32::MAX,
        ensures
            final(self)@ == (MessageView { hops: (old(self).hops + 1) as u32, ..old(self)@ }),
    {
        self.hops += 1;
    }
}


/// An IP address as the integer that its bytes spell in network order.
#[derive(Clone, Copy, Debug, PartialEq, Eq, Hash, Structural)]
pub enum IpAddress {
    V4(u32),
    V6(u128),
}

impl IpAddress {
    /// Whether the address lies in a multicast range: `224.0.0.0/4` for
    /// version 4, `ff00::/8` for version 6.
    pub open spec fn spec_is_multicast(self) -> bool {
        match self {
            IpAddress::V4(a) => 0xE000_0000 <= a <= 0xEFFF_FFFF,
            IpAddress::V6(a) => a >= 0xFF00_0000_0000_0000_0000_0000_0000_0000,
        }
    }

    /// Whether the address lies in a multicast range.
    pub fn is_multicast(&self) -> (multicast: bool)
        ensures
            multicast == self.spec_is_multicast(),
    {
        match self {
            IpAddress::V4(a) => 0xE000_0000u32 <= *a && *a <= 0xEFFF_FFFFu32,
            IpAddress::V6(a) => *a >= 0xFF00_0000_0000_0000_0000_0000_0000_0000u128,
        }
    }
}

/// Where a node can be reached: an address and a port.
#[derive(Clone, Copy, Debug, PartialEq, Eq, Hash, Structural)]
pub struct Endpoint {
    pub ip: IpAddress,
    pub port: u16,
}

impl Endpoint {
    /// The version 4 endpoint `a.b.c.d:port`.
    pub fn v4(a: u8, b: u8, c: u8, d: u8, port: u16) -> (e: Endpoint)
        ensures
            e == (Endpoint {
                ip: IpAddress::V4((a as u32 * 0x100_0000 + b as u32 * 0x1_0000 + c as u32 * 0x100 + d as u32) as u32),
                port,
            }),
    {
        let ip: u32 = a as u32 * 0x100_0000 + b as u32 * 0x1_0000 + c as u32 * 0x100 + d as u32;
        Endpoint { ip: IpAddress::V4(ip), port }
    }
}

/// The default group and port on which nodes announce themselves:
/// `224.0.0.1:9999`.
pub fn discovery_group() -> (e: Endpoint)
    ensures
        e == (Endpoint { ip: IpAddress::V4(0xE000_0001), port: 9999 }),
        e.ip.spec_is_multicast(),
{
    Endpoint { ip: IpAddress::V4(0xE000_0001), port: 9999 }
}

/// What a node knows of another node.
#[derive(Debug)]
pub struct Peer {
    pub id: NodeId,
    /// Endpoints in order of preference; the first is the one dialled.
    pub addresses: Vec<Endpoint>,
    /// Seconds since the epoch at the last sighting.
    pub last_seen: u64,
    pub connected: bool,
    pub metadata: std::collections::HashMap<String, String>,
}

/// The mathematical content of a `Peer`.
pub ghost struct PeerView {
    pub id: Seq<u8>,
    pub addresses: Seq<Endpoint>,
    pub last_seen: u64,
    pub connected: bool,
    pub metadata: Map<String, String>,
}

impl PeerView {
    /// A peer as it is first recorded: one endpoint, not connected, no
    /// metadata.
    pub open spec fn sighted(id: Seq<u8>, address: Endpoint, now: u64) -> PeerView {
        PeerView {
            id,
            addresses: seq![address],
            last_seen: now,
            connected: false,
            metadata: Map::empty(),
        }
    }

    /// Alive at `now`: seen less than `PEER_ALIVE_SECS` seconds before it. A
    /// sighting that lies after `now` counts as just made.
    pub open spec fn is_alive_at(self, now: u64) -> bool {
        now - self.last_seen < PEER_ALIVE_SECS
    }
}

impl View for Peer {
    type V = PeerView;

    open spec fn view(&self) -> PeerView {
        PeerView {
            id: self.id@,
            addresses: self.addresses@,
            last_seen: self.last_seen,
            connected: self.connected,
            metadata: self.metadata@,
        }
    }
}

impl Clone for Peer {
    fn clone(&self) -> (copy: Peer)
        ensures
            copy@ == self@,
    {
        let mut addresses: Vec<Endpoint> = Vec::with_capacity(self.addresses.len());
        let mut i: usize = 0;
        while i < self.addresses.len()
            invariant
                i <= self.addresses.len(),
                addresses@ == self.addresses@.subrange(0, i as int),
            decreases self.addresses.len() - i,
        {
            addresses.push(self.addresses[i]);
            assert(addresses@ =~= self.addresses@.subrange(0, i + 1));
            i += 1;
        }
        assert(self.addresses@.subrange(0, self.addresses.len() as int) =~= self.addresses@);
        Peer {
            id: self.id,
            addresses,
            last_seen: self.last_seen,
            connected: self.connected,
            metadata: self.metadata.clone(),
        }
    }
}

impl Peer {
    /// A peer sighted just now at `address`; the sighting time is read from
    /// the clock.
    pub fn new(id: NodeId, address: Endpoint) -> (p: Peer)
        ensures
            p@ == PeerView::sighted(id@, address, p.last_seen),
    {
        Peer::sighted(id, address, unix_seconds())
    }

    /// A peer sighted at `address` at time `now`.
    pub fn sighted(id: NodeId, address: Endpoint, now: u64) -> (p: Peer)
        ensures
            p@ == PeerView::sighted(id@, address, now),
    {
        let mut addresses: Vec<Endpoint> = Vec::new();
        addresses.push(address);
        assert(addresses@ =~= seq![address]);
        Peer {
            id,
            addresses,
            last_seen: now,
            connected: false,
            metadata: std::collections::HashMap::new(),
        }
    }

    /// Records a sighting at the clock's present reading.
    pub fn update_last_seen(&mut self)
        ensures
            final(self)@ == (PeerView { last_seen: final(self).last_seen, ..old(self)@ }),
    {
        self.touch(unix_seconds());
    }

    /// Records a sighting at time `now`.
    pub fn touch(&mut self, now: u64)
        ensures
            final(self)@ == (PeerView { last_seen: now, ..old(self)@ }),
    {
        self.last_seen = now;
    }

    /// Whether the peer is alive by the clock's present reading.
    pub fn is_alive(&self) -> (alive: bool)
        ensures
            exists|now: u64| alive == self@.is_alive_at(now),
    {
        let now = unix_seconds();
        self.is_alive_at(now)
    }

    /// Whether the peer is alive at time `now`.
    pub fn is_alive_at(&self, now: u64) -> (alive: bool)
        ensures
            alive == self@.is_alive_at(now),
    {
        if now >= self.last_seen {
            now - self.last_seen < PEER_ALIVE_SECS
        } else {
            true
        }
    }
}

/// How a node is set up.
#[derive(Clone, Copy, Debug)]
pub struct NodeConfig {
    pub node_id: NodeId,
    pub listen_addr: Endpoint,
    /// Cap on connected peers.
    pub max_peers: usize,
    /// Seconds between heartbeats.
    pub heartbeat_interval: u64,
    pub protocol: ProtocolType,
    pub enable_encryption: bool,
    pub enable_compression: bool,
}

impl NodeConfig {
    /// The defaults around a given identifier: loopback with a port chosen by
    /// the system, at most 100 peers, a heartbeat every 30 seconds, gossip,
    /// encryption on, compression off.
    pub fn with_node_id(node_id: NodeId) -> (c: NodeConfig)
        ensures
            c == (NodeConfig {
                node_id,
                listen_addr: Endpoint { ip: IpAddress::V4(0x7F00_0001), port: 0 },
                max_peers: 100,
                heartbeat_interval: 30,
                protocol: ProtocolType::Gossip,
                enable_encryption: true,
                enable_compression: false,
            }),
    {
        NodeConfig {
            node_id,
            listen_addr: Endpoint { ip: IpAddress::V4(0x7F00_0001), port: 0 },
            max_peers: 100,
            heartbeat_interval: 30,
            protocol: ProtocolType::Gossip,
            enable_encryption: true,
            enable_compression: false,
        }
    }
}

impl Default for NodeConfig {
    /// The defaults around a fresh random identifier.
    fn default() -> (c: NodeConfig)
        ensures
            c == (NodeConfig {
                node_id: c.node_id,
                listen_addr: Endpoint { ip: IpAddress::V4(0x7F00_0001), port: 0 },
                max_peers: 100,
                heartbeat_interval: 30,
                protocol: ProtocolType::Gossip,
                enable_encryption: true,
                enable_compression: false,
            }),
    {
        NodeConfig::with_node_id(NodeId::new())
    }
}

/// Counters of a node or of its transport.
#[derive(Clone, Copy, Debug, PartialEq, Eq, Structural)]
pub struct MeshStats {
    pub messages_sent: u64,
    pub messages_received: u64,
    pub bytes_sent: u64,
    pub bytes_received: u64,
    pub peers_connected: usize,
    pub peers_discovered: usize,
    pub uptime_seconds: u64,
}

impl MeshStats {
    /// Counters that have counted nothing.
    pub open spec fn zero() -> MeshStats {
        MeshStats {
            messages_sent: 0,
            messages_received: 0,
            bytes_sent: 0,
            bytes_received: 0,
            peers_connected: 0,
            peers_discovered: 0,
            uptime_seconds: 0,
        }
    }
}

impl Default for MeshStats {
    fn default() -> (s: MeshStats)
        ensures
            s == MeshStats::zero(),
    {
        MeshStats {
            messages_sent: 0,
            messages_received: 0,
            bytes_sent: 0,
            bytes_received: 0,
            peers_connected: 0,
            peers_discovered: 0,
            uptime_seconds: 0,
        }
    }
}

} // verus!
