//! The node: it owns the transport's bookkeeping, the protocols, the peer
//! table, the user's handlers and the counters, and decides what to send
//! for every message that comes in or goes out. The embedding program
//! performs the sends and feeds in what it receives.

use vstd::prelude::*;
use vstd::string::StringExecFns;
use vstd::bytes::{
    lemma_auto_spec_u128_to_from_le_bytes, lemma_auto_spec_u16_to_from_le_bytes,
    lemma_auto_spec_u32_to_from_le_bytes, spec_u128_to_le_bytes, spec_u16_to_le_bytes,
    spec_u32_to_le_bytes, u128_to_le_bytes, u16_to_le_bytes, u32_to_le_bytes,
};
use crate::crypto::{AesGcmCrypto, Ed25519Signer};
use crate::error::Error;
use crate::idmap::{has_key, key_index, IdMap};
use crate::network::{NetworkTransport, PeerConnection, UdpDiscovery};
use crate::consensus::ConsensusProtocol;
use crate::protocol::{
    has_tag, saturating_sum, tag_index, FloodingProtocol, GossipProtocol, MeshProtocol, Protocol,
    ProtocolRegistry,
};
use crate::types::{
    Endpoint, IpAddress, MeshStats, Message, MessageView, NodeConfig, NodeId, Peer, ProtocolType,
};

verus! {

/// User code that is told of every inbound message.
pub trait MessageHandler: Sized {
    /// Whether handling `message` from `from_peer` in this state may leave
    /// the handler in the state `after`, with success or failure as `ok`
    /// says. A handler that does not say is free to do anything.
    open spec fn accepts(&self, message: MessageView, from_peer: Seq<u8>, after: &Self, ok: bool) -> bool {
        true
    }

    /// Takes note of an inbound message.
    fn handle_message(&mut self, message: &Message, from_peer: &NodeId) -> (r: Result<(), Error>)
        ensures
            old(self).accepts(message@, from_peer@, final(self), r is Ok),
    ;
}

/// A handler that keeps every message it is told of, with its sender, in
/// order of arrival.
pub struct Inbox {
    pub messages: Vec<(Message, NodeId)>,
}

impl Inbox {
    /// An inbox without messages.
    pub fn new() -> (inbox: Inbox)
        ensures
            inbox.messages@ == Seq::<(Message, NodeId)>::empty(),
    {
        Inbox { messages: Vec::new() }
    }
}

impl MessageHandler for Inbox {
    open spec fn accepts(&self, message: MessageView, from_peer: Seq<u8>, after: &Self, ok: bool) -> bool {
        &&& ok
        &&& after.messages@.len() == self.messages@.len() + 1
        &&& after.messages@.drop_last() == self.messages@
        &&& after.messages@.last().0@ == message
        &&& after.messages@.last().1@ == from_peer
    }

    fn handle_message(&mut self, message: &Message, from_peer: &NodeId) -> (r: Result<(), Error>) {
        self.messages.push((message.clone(), *from_peer));
        assert(self.messages@.drop_last() =~= old(self).messages@);
        Ok(())
    }
}

/// The bytes of the identifier that stands for a sender known only by its
/// endpoint: the address family (4 or 6), the address and the port, each
/// little-endian, then zeros.
pub open spec fn ephemeral_bytes(endpoint: Endpoint) -> Seq<u8> {
    let head = match endpoint.ip {
        IpAddress::V4(a) => seq![4u8] + spec_u32_to_le_bytes(a),
        IpAddress::V6(a) => seq![6u8] + spec_u128_to_le_bytes(a),
    } + spec_u16_to_le_bytes(endpoint.port);
    head + Seq::new((32 - head.len()) as nat, |i: int| 0u8)
}

/// The identifier that stands for a sender known only by its endpoint. It
/// is the same for the same endpoint every time.
pub fn ephemeral_id(endpoint: Endpoint) -> (id: NodeId)
    ensures
        id@ == ephemeral_bytes(endpoint),
{
    proof {
        lemma_auto_spec_u32_to_from_le_bytes();
        lemma_auto_spec_u128_to_from_le_bytes();
        lemma_auto_spec_u16_to_from_le_bytes();
    }
    let mut head: Vec<u8> = Vec::new();
    match endpoint.ip {
        IpAddress::V4(a) => {
            head.push(4u8);
            let ip = u32_to_le_bytes(a);
            crate::codec::append_bytes(&mut head, ip.as_slice());
        },
        IpAddress::V6(a) => {
            head.push(6u8);
            let ip = u128_to_le_bytes(a);
            crate::codec::append_bytes(&mut head, ip.as_slice());
        },
    }
    let port = u16_to_le_bytes(endpoint.port);
    crate::codec::append_bytes(&mut head, port.as_slice());
    let mut bytes = [0u8; 32];
    let mut i: usize = 0;
    while i < head.len()
        invariant
            i <= head@.len() <= 19,
            forall|j: int| 0 <= j < i ==> bytes[j] == head@[j],
            forall|j: int| i <= j < 32 ==> bytes[j] == 0,
        decreases head@.len() - i,
    {
        bytes[i] = head[i];
        i += 1;
    }
    assert(bytes@ =~= ephemeral_bytes(endpoint));
    NodeId(bytes)
}

/// Two endpoints with the same ephemeral identifier are the same endpoint.
pub proof fn lemma_ephemeral_id_injective(a: Endpoint, b: Endpoint)
    requires
        ephemeral_bytes(a) == ephemeral_bytes(b),
    ensures
        a == b,
{
    lemma_auto_spec_u32_to_from_le_bytes();
    lemma_auto_spec_u128_to_from_le_bytes();
    lemma_auto_spec_u16_to_from_le_bytes();
    let ea = ephemeral_bytes(a);
    let eb = ephemeral_bytes(b);
    assert(ea[0] == eb[0]);
    match (a.ip, b.ip) {
        (IpAddress::V4(x), IpAddress::V4(y)) => {
            assert(ea.subrange(1, 5) =~= spec_u32_to_le_bytes(x));
            assert(eb.subrange(1, 5) =~= spec_u32_to_le_bytes(y));
            assert(ea.subrange(5, 7) =~= spec_u16_to_le_bytes(a.port));
            assert(eb.subrange(5, 7) =~= spec_u16_to_le_bytes(b.port));
        },
        (IpAddress::V6(x), IpAddress::V6(y)) => {
            assert(ea.subrange(1, 17) =~= spec_u128_to_le_bytes(x));
            assert(eb.subrange(1, 17) =~= spec_u128_to_le_bytes(y));
            assert(ea.subrange(17, 19) =~= spec_u16_to_le_bytes(a.port));
            assert(eb.subrange(17, 19) =~= spec_u16_to_le_bytes(b.port));
        },
        (IpAddress::V4(x), IpAddress::V6(y)) => {
            assert(ea[0] == 4u8 && eb[0] == 6u8);
        },
        (IpAddress::V6(x), IpAddress::V4(y)) => {
            assert(ea[0] == 6u8 && eb[0] == 4u8);
        },
    }
}

/// The identifier of the first peer of `peers` that lists `address`, if
/// any does.
pub open spec fn peer_at(peers: Seq<(NodeId, Peer)>, address: Endpoint) -> Option<NodeId>
    decreases peers.len(),
{
    if peers.len() == 0 {
        None
    } else if peers[0].1@.addresses.contains(address) {
        Some(peers[0].0)
    } else {
        peer_at(peers.subrange(1, peers.len() as int), address)
    }
}

/// Whether `addresses` lists `address`.
pub fn lists_address(addresses: &Vec<Endpoint>, address: &Endpoint) -> (found: bool)
    ensures
        found == addresses@.contains(*address),
{
    let mut i: usize = 0;
    while i < addresses.len()
        invariant
            i <= addresses@.len(),
            forall|j: int| 0 <= j < i ==> addresses@[j] != *address,
        decreases addresses@.len() - i,
    {
        if addresses[i] == *address {
            return true;
        }
        i += 1;
    }
    false
}

/// The identifier of the first peer of `peers` that lists `address`, if
/// any does.
pub fn find_peer_by_address(peers: &IdMap<Peer>, address: &Endpoint) -> (r: Option<NodeId>)
    ensures
        r == peer_at(peers.entries(), *address),
{
    let count = peers.len();
    let mut i: usize = 0;
    assert(peers.entries().subrange(0, count as int) =~= peers.entries());
    while i < count
        invariant
            i <= count,
            count == peers.entries().len(),
            peer_at(peers.entries(), *address) == peer_at(
                peers.entries().subrange(i as int, count as int),
                *address,
            ),
        decreases count - i,
    {
        let ghost rest = peers.entries().subrange(i as int, count as int);
        assert(rest[0] == peers.entries()[i as int]);
        assert(rest.subrange(1, rest.len() as int) =~= peers.entries().subrange(
            i + 1,
            count as int,
        ));
        if lists_address(&peers.value_at(i).addresses, address) {
            return Some(peers.key_at(i));
        }
        i += 1;
    }
    None
}


/// The frames that sending each of `responses` takes, in order.
pub open spec fn route_all(transport: &NetworkTransport, responses: Seq<MessageView>) -> Seq<
    (Seq<u8>, Seq<u8>),
>
    decreases responses.len(),
{
    if responses.len() == 0 {
        Seq::empty()
    } else {
        route_all(transport, responses.drop_last()) + transport.route(responses.last())
    }
}

/// What goes out for a message depends on the transport's connections and
/// on the state of its listener alone.
pub proof fn lemma_route_all_same_connections(
    a: &NetworkTransport,
    b: &NetworkTransport,
    responses: Seq<MessageView>,
)
    requires
        a.connections() == b.connections(),
        a.failure() == b.failure(),
    ensures
        route_all(a, responses) == route_all(b, responses),
    decreases responses.len(),
{
    if responses.len() > 0 {
        lemma_route_all_same_connections(a, b, responses.drop_last());
    }
}

/// What handling one inbound message came to.
pub struct Handled {
    /// What the protocol answered; empty when it failed.
    pub responses: Vec<Message>,
    /// Why the protocol engine did not handle the message, if it did not.
    pub protocol_error: Option<Error>,
    /// The frames to write for the responses, each with the peer it is for.
    pub frames: Vec<(NodeId, Vec<u8>)>,
    /// What each user handler answered, in order of registration; empty
    /// when the message was refused as malformed.
    pub handler_results: Vec<Result<(), Error>>,
}

impl Handled {
    /// What the protocol engine answered.
    pub open spec fn outcome(&self) -> Result<Seq<MessageView>, Error> {
        match self.protocol_error {
            None => Ok(crate::protocol::views(self.responses@)),
            Some(e) => Err(e),
        }
    }
}

/// What the protocol engine does with a message: where a protocol is
/// registered for the message's tag, that protocol alone handles it; else
/// nothing changes and the answer is `Protocol`.
pub open spec fn engine_step(
    before: Seq<Protocol>,
    after: Seq<Protocol>,
    m: MessageView,
    from_peer: Seq<u8>,
    outcome: Result<Seq<MessageView>, Error>,
) -> bool {
    &&& after.len() == before.len()
    &&& if has_tag(before, m.protocol_type) {
        let i = tag_index(before, m.protocol_type);
        &&& before[i].handles(m, from_peer, &after[i], outcome)
        &&& forall|j: int| 0 <= j < before.len() && j != i ==> after[j] == before[j]
    } else {
        &&& after == before
        &&& outcome matches Err(e)
        &&& e is Protocol
        &&& e.detail() == crate::protocol::unknown_protocol(m.protocol_type)
    }
}

/// The counters after one inbound message with a payload of `payload_len`
/// bytes.
pub open spec fn after_receive(stats: MeshStats, payload_len: nat) -> MeshStats {
    MeshStats {
        messages_received: saturating_sum(stats.messages_received, 1),
        bytes_received: saturating_sum(stats.bytes_received, payload_len),
        ..stats
    }
}

/// A mesh node.
pub struct Node<H: MessageHandler> {
    config: NodeConfig,
    transport: NetworkTransport,
    discovery: Option<UdpDiscovery>,
    protocols: ProtocolRegistry<Protocol>,
    crypto: Option<AesGcmCrypto>,
    signer: Ed25519Signer,
    peers: IdMap<Peer>,
    message_handlers: Vec<H>,
    stats: MeshStats,
    running: bool,
    unknown_sources: u64,
}

impl<H: MessageHandler> Node<H> {
    pub closed spec fn spec_config(&self) -> NodeConfig {
        self.config
    }

    pub closed spec fn transport(&self) -> NetworkTransport {
        self.transport
    }

    pub closed spec fn discovery(&self) -> Option<UdpDiscovery> {
        self.discovery
    }

    pub closed spec fn protocols(&self) -> Seq<Protocol> {
        self.protocols.protocols()
    }

    /// The key of the cipher, where encryption is enabled.
    pub closed spec fn cipher_key(&self) -> Option<Seq<u8>> {
        match self.crypto {
            Some(c) => Some(c.key()),
            None => None,
        }
    }

    pub closed spec fn signer(&self) -> Ed25519Signer {
        self.signer
    }

    /// The peer table, in order of first arrival.
    pub closed spec fn peers(&self) -> Seq<(NodeId, Peer)> {
        self.peers.entries()
    }

    /// The user's handlers, in order of registration.
    pub closed spec fn handlers(&self) -> Seq<H> {
        self.message_handlers@
    }

    pub closed spec fn stats_view(&self) -> MeshStats {
        self.stats
    }

    pub closed spec fn is_running(&self) -> bool {
        self.running
    }

    /// The number of inbound messages whose sender was known only by its
    /// endpoint.
    pub closed spec fn unknown_sources(&self) -> u64 {
        self.unknown_sources
    }

    /// Whether a protocol is registered for `tag`.
    pub open spec fn registered(&self, tag: ProtocolType) -> bool {
        has_tag(self.protocols(), tag)
    }

    /// The tags that a node set up for `protocol` registers: that protocol
    /// alone if it is flooding, gossip or consensus; all three otherwise.
    pub open spec fn registers(protocol: ProtocolType, tag: ProtocolType) -> bool {
        tag != ProtocolType::Direct && (protocol == tag || protocol == ProtocolType::Direct)
    }

    /// Everything but the protocols and the handlers is as in `before`.
    pub open spec fn same_surroundings(&self, before: &Self) -> bool {
        &&& self.spec_config() == before.spec_config()
        &&& self.transport() == before.transport()
        &&& self.discovery() == before.discovery()
        &&& self.cipher_key() == before.cipher_key()
        &&& self.signer() == before.signer()
        &&& self.peers() == before.peers()
        &&& self.is_running() == before.is_running()
    }

    /// A node set up as `config` says, not yet running: a fresh transport;
    /// discovery only where the listen address is a multicast address; the
    /// protocols that `registers` names; a cipher only where encryption is
    /// enabled; a signer with a fresh key; no peers, no handlers, counters
    /// at zero.
    ///
    /// The cipher starts with the all-zero key, which protects nothing:
    /// give the node its key with `set_encryption_key` before any traffic.
    pub fn new(config: NodeConfig) -> (r: Result<Node<H>, Error>)
        ensures
            r matches Ok(n) && {
                &&& n.spec_config() == config
                &&& !n.is_running()
                &&& n.transport().node_id() == config.node_id
                &&& n.transport().listen_addr() == config.listen_addr
                &&& !n.transport().is_started()
                &&& n.transport().failure() is None
                &&& n.transport().connections() == Seq::<(NodeId, PeerConnection)>::empty()
                &&& n.transport().stats_view() == MeshStats::zero()
                &&& n.discovery() is Some == config.listen_addr.ip.spec_is_multicast()
                &&& forall|tag: ProtocolType|
                    n.registered(tag) == Node::<H>::registers(config.protocol, tag)
                &&& n.cipher_key() == (if config.enable_encryption {
                    Some(Seq::new(32, |i: int| 0u8))
                } else {
                    None
                })
                &&& n.peers() == Seq::<(NodeId, Peer)>::empty()
                &&& n.handlers() == Seq::<H>::empty()
                &&& n.stats_view() == MeshStats::zero()
                &&& n.unknown_sources() == 0
            },
    {
        let transport = NetworkTransport::new(config.node_id, config.listen_addr);
        let discovery = if config.listen_addr.ip.is_multicast() {
            match UdpDiscovery::new(config.node_id, config.listen_addr, config.listen_addr) {
                Ok(d) => Some(d),
                Err(e) => { return Err(e); },
            }
        } else {
            None
        };
        let mut protocols: ProtocolRegistry<Protocol> = ProtocolRegistry::new();
        match config.protocol {
            ProtocolType::Flooding => {
                protocols.register(Protocol::Flooding(FloodingProtocol::new(config.node_id)));
            },
            ProtocolType::Gossip => {
                protocols.register(Protocol::Gossip(GossipProtocol::new(config.node_id)));
            },
            ProtocolType::Consensus => {
                protocols.register(Protocol::Consensus(ConsensusProtocol::new(config.node_id)));
            },
            ProtocolType::Direct => {
                protocols.register(Protocol::Flooding(FloodingProtocol::new(config.node_id)));
                protocols.register(Protocol::Gossip(GossipProtocol::new(config.node_id)));
                protocols.register(Protocol::Consensus(ConsensusProtocol::new(config.node_id)));
            },
        }
        proof {
            let ps = protocols.protocols();
            assert forall|tag: ProtocolType| has_tag(ps, tag) == Node::<H>::registers(
                config.protocol,
                tag,
            ) by {
                if has_tag(ps, tag) {
                    let k = tag_index(ps, tag);
                    assert(ps[k].tag() == tag);
                }
                if Node::<H>::registers(config.protocol, tag) {
                    if config.protocol == ProtocolType::Direct {
                        assert(ps[0].tag() == ProtocolType::Flooding);
                        assert(ps[1].tag() == ProtocolType::Gossip);
                        assert(ps[2].tag() == ProtocolType::Consensus);
                    } else {
                        assert(ps[0].tag() == tag);
                    }
                }
            }
        }
        let crypto = if config.enable_encryption {
            let key = [0u8; 32];
            assert(key@ =~= Seq::new(32, |i: int| 0u8));
            Some(AesGcmCrypto::new(&key))
        } else {
            None
        };
        let signer = Ed25519Signer::new();
        Ok(
            Node {
                config,
                transport,
                discovery,
                protocols,
                crypto,
                signer,
                peers: IdMap::new(),
                message_handlers: Vec::new(),
                stats: MeshStats::default(),
                running: false,
                unknown_sources: 0,
            },
        )
    }
}


impl<H: MessageHandler> Node<H> {
    /// Everything but the transport, the peer table and the running flag is
    /// as in `before`.
    pub open spec fn same_engine(&self, before: &Self) -> bool {
        &&& self.spec_config() == before.spec_config()
        &&& self.discovery() == before.discovery()
        &&& self.protocols() == before.protocols()
        &&& self.cipher_key() == before.cipher_key()
        &&& self.signer() == before.signer()
        &&& self.handlers() == before.handlers()
        &&& self.stats_view() == before.stats_view()
        &&& self.unknown_sources() == before.unknown_sources()
    }

    /// Starts the node. A running node cannot be started again: that fails
    /// with `InvalidParameter` and changes nothing. Otherwise the node runs
    /// from now on and its transport is started; a transport that was
    /// started before (by an earlier run of the node) fails with `Network`.
    pub fn start(&mut self) -> (r: Result<(), Error>)
        ensures
            final(self).same_engine(old(self)),
            final(self).peers() == old(self).peers(),
            if old(self).is_running() {
                &&& r matches Err(e)
                &&& e is InvalidParameter
                &&& e.detail() == "Node already running"@
                &&& final(self).is_running()
                &&& final(self).transport() == old(self).transport()
            } else {
                &&& final(self).is_running()
                &&& final(self).transport().is_started()
                &&& r is Ok == !old(self).transport().is_started()
                &&& r matches Err(e) ==> e is Network
                &&& final(self).transport().connections() == old(self).transport().connections()
                &&& final(self).transport().stats_view() == old(self).transport().stats_view()
                &&& final(self).transport().failure() == old(self).transport().failure()
                &&& final(self).transport().inbound() == old(self).transport().inbound()
            },
    {
        if self.running {
            return Err(Error::InvalidParameter(String::from_str("Node already running")));
        }
        self.running = true;
        self.transport.start()
    }

    /// Stops the node: the dispatcher hands out nothing more. It always
    /// succeeds.
    pub fn stop(&mut self) -> (r: Result<(), Error>)
        ensures
            r is Ok,
            !final(self).is_running(),
            final(self).same_engine(old(self)),
            final(self).peers() == old(self).peers(),
            final(self).transport() == old(self).transport(),
    {
        self.running = false;
        Ok(())
    }

    /// Whether the node is running.
    pub fn running(&self) -> (running: bool)
        ensures
            running == self.is_running(),
    {
        self.running
    }

    /// Decides what goes out for `message`: a frame for its destination if
    /// it names one, else a frame for every connected peer. A unicast or
    /// multicast message without a destination is refused with
    /// `InvalidParameter`.
    pub fn send_message(&self, message: Message) -> (out: crate::network::Outbound)
        ensures
            if message@.is_malformed() {
                &&& out.frames@.len() == 0
                &&& out.result matches Err(e)
                &&& e is InvalidParameter
            } else {
                &&& crate::network::frame_views(out.frames@) == self.transport().route(message@)
                &&& self.transport().route_result(message@, out.result)
            },
    {
        if message.is_malformed() {
            return crate::network::Outbound {
                frames: Vec::new(),
                result: Err(
                    Error::InvalidParameter(String::from_str("Message has no destination")),
                ),
            };
        }
        self.transport.dispatch(&message)
    }

    /// Counts one frame of `frame_len` bytes as written to a peer.
    pub fn record_sent(&mut self, frame_len: usize)
        ensures
            final(self).same_engine(old(self)),
            final(self).peers() == old(self).peers(),
            final(self).is_running() == old(self).is_running(),
            final(self).transport().stats_view() == crate::network::after_send(
                old(self).transport().stats_view(),
                frame_len as nat,
            ),
            final(self).transport().connections() == old(self).transport().connections(),
            final(self).transport().inbound() == old(self).transport().inbound(),
            final(self).transport().same_identity(&old(self).transport()),
    {
        self.transport.record_sent(frame_len);
    }

    /// Whether a peer that is not yet connected may still be added: the
    /// number of connections is below the configured cap.
    pub open spec fn has_room(&self) -> bool {
        self.transport().connections().len() < self.spec_config().max_peers
    }

    /// Adds `peer`, whose first address was dialled with success at the
    /// instant `now`: the transport gets the connection and the peer table
    /// the peer. It fails, and changes nothing, with `ResourceExhausted`
    /// when the peer is not yet connected and the cap on connected peers is
    /// reached, and with `Network` when the transport refuses the
    /// connection.
    pub fn add_peer(&mut self, peer: Peer, now: u64) -> (r: Result<(), Error>)
        ensures
            final(self).same_engine(old(self)),
            final(self).is_running() == old(self).is_running(),
            final(self).transport().same_identity(&old(self).transport()),
            final(self).transport().stats_view() == old(self).transport().stats_view(),
            final(self).transport().inbound() == old(self).transport().inbound(),
            match r {
                Ok(_) => {
                    &&& has_key(old(self).transport().connections(), peer.id@) || old(self).has_room()
                    &&& old(self).transport().failure() is None
                    &&& peer@.addresses.len() > 0
                    &&& has_key(final(self).transport().connections(), peer.id@)
                    &&& final(self).transport().connections()[key_index(
                        final(self).transport().connections(),
                        peer.id@,
                    )].1.live
                    &&& has_key(final(self).peers(), peer.id@)
                    &&& final(self).peers()[key_index(final(self).peers(), peer.id@)].1@ == peer@
                    &&& final(self).peers() == (if has_key(old(self).peers(), peer.id@) {
                        old(self).peers().update(
                            key_index(old(self).peers(), peer.id@),
                            final(self).peers()[key_index(final(self).peers(), peer.id@)],
                        )
                    } else {
                        old(self).peers().push(final(self).peers().last())
                    })
                },
                Err(e) => {
                    &&& final(self).peers() == old(self).peers()
                    &&& final(self).transport().connections() == old(self).transport().connections()
                    &&& if !has_key(old(self).transport().connections(), peer.id@) && !old(self).has_room() {
                        e is ResourceExhausted
                    } else {
                        e is Network && (old(self).transport().failure() is Some
                            || peer@.addresses.len() == 0)
                    }
                },
            },
    {
        if !self.transport.is_connected(&peer.id) && self.transport.connection_count()
            >= self.config.max_peers {
            return Err(Error::ResourceExhausted);
        }
        let id = peer.id;
        let copy = peer.clone();
        match self.transport.connect_to_peer(copy, now) {
            Ok(_) => {},
            Err(e) => { return Err(e); },
        }
        let known = self.peers.find(&id);
        let _ = self.peers.insert(id, peer);
        proof {
            let ps = self.peers.entries();
            match known {
                Some(i) => {
                    assert(ps[i as int].0@ == id@);
                    crate::idmap::lemma_key_index_unique(ps, id@, i as int);
                },
                None => {
                    assert(old(self).peers().push(ps.last()) =~= ps);
                },
            }
        }
        Ok(())
    }
}


impl<H: MessageHandler> Node<H> {
    /// Removes a peer: the transport forgets the connection and the peer
    /// table the peer. It always succeeds.
    pub fn remove_peer(&mut self, peer_id: &NodeId) -> (r: Result<(), Error>)
        ensures
            r is Ok,
            final(self).same_engine(old(self)),
            final(self).is_running() == old(self).is_running(),
            !has_key(final(self).peers(), peer_id@),
            !has_key(final(self).transport().connections(), peer_id@),
            final(self).peers() == (if has_key(old(self).peers(), peer_id@) {
                old(self).peers().remove(key_index(old(self).peers(), peer_id@))
            } else {
                old(self).peers()
            }),
            final(self).transport().connections() == (if has_key(
                old(self).transport().connections(),
                peer_id@,
            ) {
                old(self).transport().connections().remove(
                    key_index(old(self).transport().connections(), peer_id@),
                )
            } else {
                old(self).transport().connections()
            }),
            final(self).transport().same_identity(&old(self).transport()),
            final(self).transport().stats_view() == old(self).transport().stats_view(),
            final(self).transport().inbound() == old(self).transport().inbound(),
    {
        let _ = self.transport.disconnect_peer(peer_id);
        let _ = self.peers.remove(peer_id);
        Ok(())
    }

    /// The peers of the peer table, in order of first arrival.
    pub fn get_peers(&self) -> (peers: Vec<Peer>)
        ensures
            peers@.len() == self.peers().len(),
            forall|i: int| 0 <= i < peers@.len() ==> (#[trigger] peers@[i])@ == self.peers()[i].1@,
    {
        let count = self.peers.len();
        let mut peers: Vec<Peer> = Vec::new();
        let mut i: usize = 0;
        while i < count
            invariant
                i <= count,
                count == self.peers().len(),
                peers@.len() == i,
                forall|k: int| 0 <= k < i ==> (#[trigger] peers@[k])@ == self.peers()[k].1@,
            decreases count - i,
        {
            peers.push(self.peers.value_at(i).clone());
            i += 1;
        }
        peers
    }

    /// Adds a handler after those already registered.
    pub fn register_message_handler(&mut self, handler: H)
        ensures
            final(self).handlers() == old(self).handlers().push(handler),
            final(self).same_surroundings(old(self)),
            final(self).protocols() == old(self).protocols(),
            final(self).stats_view() == old(self).stats_view(),
            final(self).unknown_sources() == old(self).unknown_sources(),
    {
        self.message_handlers.push(handler);
    }

    /// The counters of the node and of its transport together: the
    /// traffic counters are summed, the number of connected peers is the
    /// number of connections, the number of discovered peers is what
    /// discovery has learnt.
    pub fn get_stats(&self) -> (s: MeshStats)
        ensures
            s == (MeshStats {
                messages_sent: saturating_sum(
                    self.stats_view().messages_sent,
                    self.transport().stats_view().messages_sent as nat,
                ),
                messages_received: saturating_sum(
                    self.stats_view().messages_received,
                    self.transport().stats_view().messages_received as nat,
                ),
                bytes_sent: saturating_sum(
                    self.stats_view().bytes_sent,
                    self.transport().stats_view().bytes_sent as nat,
                ),
                bytes_received: saturating_sum(
                    self.stats_view().bytes_received,
                    self.transport().stats_view().bytes_received as nat,
                ),
                peers_connected: self.transport().connections().len() as usize,
                peers_discovered: match self.discovery() {
                    Some(d) => d.discovered().len() as usize,
                    None => self.stats_view().peers_discovered,
                },
                uptime_seconds: self.stats_view().uptime_seconds,
            }),
    {
        let mut stats = self.stats;
        let transport_stats = self.transport.get_stats();
        stats.messages_sent = stats.messages_sent.saturating_add(transport_stats.messages_sent);
        stats.messages_received = stats.messages_received.saturating_add(
            transport_stats.messages_received,
        );
        stats.bytes_sent = stats.bytes_sent.saturating_add(transport_stats.bytes_sent);
        stats.bytes_received = stats.bytes_received.saturating_add(transport_stats.bytes_received);
        stats.peers_connected = transport_stats.peers_connected;
        match &self.discovery {
            Some(d) => {
                stats.peers_discovered = d.discovered_count();
            },
            None => {},
        }
        stats
    }

    /// The node's identifier.
    pub fn node_id(&self) -> (id: &NodeId)
        ensures
            *id == self.spec_config().node_id,
    {
        &self.config.node_id
    }

    /// The node's configuration.
    pub fn config(&self) -> (c: &NodeConfig)
        ensures
            *c == self.spec_config(),
    {
        &self.config
    }

    /// Gives the cipher its key and thereby enables encryption.
    pub fn set_encryption_key(&mut self, key: &[u8; 32])
        ensures
            final(self).cipher_key() == Some(key@),
            final(self).same_engine_but_cipher(old(self)),
    {
        self.crypto = Some(AesGcmCrypto::new(key));
    }

    /// Everything but the cipher is as in `before`.
    pub open spec fn same_engine_but_cipher(&self, before: &Self) -> bool {
        &&& self.spec_config() == before.spec_config()
        &&& self.transport() == before.transport()
        &&& self.discovery() == before.discovery()
        &&& self.protocols() == before.protocols()
        &&& self.signer() == before.signer()
        &&& self.peers() == before.peers()
        &&& self.handlers() == before.handlers()
        &&& self.stats_view() == before.stats_view()
        &&& self.is_running() == before.is_running()
        &&& self.unknown_sources() == before.unknown_sources()
    }

    fn plan(&self, responses: &Vec<Message>) -> (frames: Vec<(NodeId, Vec<u8>)>)
        ensures
            crate::network::frame_views(frames@) == route_all(
                &self.transport(),
                crate::protocol::views(responses@),
            ),
    {
        let mut frames: Vec<(NodeId, Vec<u8>)> = Vec::new();
        let mut i: usize = 0;
        assert(crate::protocol::views(responses@.subrange(0, 0)) =~= Seq::<MessageView>::empty());
        assert(crate::network::frame_views(frames@) =~= Seq::<(Seq<u8>, Seq<u8>)>::empty());
        while i < responses.len()
            invariant
                i <= responses@.len(),
                crate::network::frame_views(frames@) == route_all(
                    &self.transport(),
                    crate::protocol::views(responses@.subrange(0, i as int)),
                ),
            decreases responses@.len() - i,
        {
            let out = self.transport.dispatch(&responses[i]);
            let ghost before = frames@;
            let mut more = out.frames;
            frames.append(&mut more);
            proof {
                let next = crate::protocol::views(responses@.subrange(0, i + 1));
                assert(next.drop_last() =~= crate::protocol::views(
                    responses@.subrange(0, i as int),
                ));
                assert(next.last() == responses@[i as int]@);
                assert(crate::network::frame_views(frames@) =~= crate::network::frame_views(before)
                    + crate::network::frame_views(out.frames@));
            }
            i += 1;
        }
        assert(responses@.subrange(0, responses@.len() as int) =~= responses@);
        frames
    }

    /// Handles one inbound message from `from_peer`. A malformed message
    /// (unicast or multicast without a destination) is refused with
    /// `Protocol` and reaches neither the protocols nor the handlers.
    /// Otherwise the protocol engine handles it, the frames for what the
    /// protocol answered are made, and every handler is told of the
    /// message once, whatever the protocol or another handler answered.
    pub fn handle_message(&mut self, message: &Message, from_peer: &NodeId) -> (h: Handled)
        ensures
            final(self).same_surroundings(old(self)),
            final(self).stats_view() == old(self).stats_view(),
            final(self).unknown_sources() == old(self).unknown_sources(),
            if message@.is_malformed() {
                &&& final(self).protocols() == old(self).protocols()
                &&& final(self).handlers() == old(self).handlers()
                &&& h.protocol_error matches Some(e)
                &&& e is Protocol
                &&& h.responses@.len() == 0
                &&& h.frames@.len() == 0
                &&& h.handler_results@.len() == 0
            } else {
                &&& engine_step(
                    old(self).protocols(),
                    final(self).protocols(),
                    message@,
                    from_peer@,
                    h.outcome(),
                )
                &&& h.protocol_error is Some ==> h.responses@.len() == 0
                &&& crate::network::frame_views(h.frames@) == route_all(
                    &old(self).transport(),
                    crate::protocol::views(h.responses@),
                )
                &&& final(self).handlers().len() == old(self).handlers().len()
                &&& h.handler_results@.len() == old(self).handlers().len()
                &&& forall|i: int|
                    0 <= i < old(self).handlers().len() ==> (#[trigger] old(self).handlers()[i]).accepts(
                        message@,
                        from_peer@,
                        &final(self).handlers()[i],
                        h.handler_results@[i] is Ok,
                    )
            },
    {
        if message.is_malformed() {
            return Handled {
                responses: Vec::new(),
                protocol_error: Some(Error::Protocol(String::from_str("Malformed message"))),
                frames: Vec::new(),
                handler_results: Vec::new(),
            };
        }
        let (responses, protocol_error) = match self.protocols.handle_message(message, from_peer) {
            Ok(responses) => (responses, None),
            Err(e) => {
                let empty: Vec<Message> = Vec::new();
                (empty, Some(e))
            },
        };
        let frames = self.plan(&responses);
        let mut handlers: Vec<H> = Vec::new();
        std::mem::swap(&mut handlers, &mut self.message_handlers);
        let ghost before = handlers@;
        let count = handlers.len();
        let mut handler_results: Vec<Result<(), Error>> = Vec::new();
        let mut i: usize = 0;
        while i < count
            invariant
                i <= count,
                count == before.len(),
                handlers@.len() == count,
                handler_results@.len() == i,
                forall|k: int| i <= k < count ==> handlers@[k] == before[k],
                forall|k: int|
                    0 <= k < i ==> (#[trigger] before[k]).accepts(
                        message@,
                        from_peer@,
                        &handlers@[k],
                        handler_results@[k] is Ok,
                    ),
            decreases count - i,
        {
            let mut handler = handlers.remove(i);
            let r = handler.handle_message(message, from_peer);
            handlers.insert(i, handler);
            handler_results.push(r);
            i += 1;
        }
        self.message_handlers = handlers;
        Handled { responses, protocol_error, frames, handler_results }
    }
}


impl<H: MessageHandler> Node<H> {
    /// The peer that a message from `address` is taken to come from: the
    /// first peer of the table that lists the address, else the stable
    /// identifier that stands for the address itself.
    pub open spec fn sender_of(&self, address: Endpoint) -> Seq<u8> {
        match peer_at(self.peers(), address) {
            Some(id) => id@,
            None => ephemeral_bytes(address),
        }
    }

    /// Whether `after` and `h` are what taking in `message` from `address`
    /// comes to. The sender is named; the message is counted as received,
    /// and its sender, if known only by its address, as an unknown source.
    /// A malformed message is refused with `Protocol` and changes nothing
    /// else. Any other is handled by the protocol engine, the frames for
    /// what the protocol answered are made, and every handler is told once.
    pub open spec fn inbound_step(
        &self,
        after: &Self,
        message: MessageView,
        address: Endpoint,
        h: Handled,
    ) -> bool {
        &&& after.stats_view() == after_receive(self.stats_view(), message.payload.len())
        &&& after.unknown_sources() == (if peer_at(self.peers(), address) is None {
            saturating_sum(self.unknown_sources(), 1)
        } else {
            self.unknown_sources()
        })
        &&& if message.is_malformed() {
            &&& after.protocols() == self.protocols()
            &&& after.handlers() == self.handlers()
            &&& h.protocol_error matches Some(e)
            &&& e is Protocol
            &&& h.responses@.len() == 0
            &&& h.frames@.len() == 0
            &&& h.handler_results@.len() == 0
        } else {
            &&& engine_step(
                self.protocols(),
                after.protocols(),
                message,
                self.sender_of(address),
                h.outcome(),
            )
            &&& h.protocol_error is Some ==> h.responses@.len() == 0
            &&& crate::network::frame_views(h.frames@) == route_all(
                &self.transport(),
                crate::protocol::views(h.responses@),
            )
            &&& after.handlers().len() == self.handlers().len()
            &&& h.handler_results@.len() == self.handlers().len()
            &&& forall|i: int|
                0 <= i < self.handlers().len() ==> (#[trigger] self.handlers()[i]).accepts(
                    message,
                    self.sender_of(address),
                    &after.handlers()[i],
                    h.handler_results@[i] is Ok,
                )
        }
    }

    /// Takes one message that arrived from `address` through the
    /// dispatcher: names its sender, handles it, and counts it as received.
    pub fn on_inbound(&mut self, message: &Message, address: Endpoint) -> (h: Handled)
        ensures
            final(self).same_surroundings(old(self)),
            old(self).inbound_step(final(self), message@, address, h),
    {
        let from_peer = match find_peer_by_address(&self.peers, &address) {
            Some(id) => id,
            None => {
                self.unknown_sources = self.unknown_sources.saturating_add(1);
                ephemeral_id(address)
            },
        };
        let h = self.handle_message(message, &from_peer);
        self.stats.messages_received = self.stats.messages_received.saturating_add(1);
        self.stats.bytes_received = self.stats.bytes_received.saturating_add(
            message.payload.len() as u64,
        );
        h
    }

    /// One turn of the dispatcher: while the node runs, takes the oldest
    /// message that the transport holds and takes it in as `on_inbound`
    /// does. It answers nothing, and changes nothing, when the node does
    /// not run or no message is waiting.
    pub fn poll(&mut self) -> (r: Option<Handled>)
        ensures
            final(self).spec_config() == old(self).spec_config(),
            final(self).discovery() == old(self).discovery(),
            final(self).cipher_key() == old(self).cipher_key(),
            final(self).signer() == old(self).signer(),
            final(self).peers() == old(self).peers(),
            final(self).is_running() == old(self).is_running(),
            final(self).transport().same_identity(&old(self).transport()),
            final(self).transport().connections() == old(self).transport().connections(),
            final(self).transport().stats_view() == old(self).transport().stats_view(),
            final(self).transport().dropped() == old(self).transport().dropped(),
            r is Some == (old(self).is_running() && old(self).transport().inbound().len() > 0),
            match r {
                Some(h) => {
                    let (message, address) = old(self).transport().inbound()[0];
                    &&& final(self).transport().inbound() == old(self).transport().inbound().subrange(
                        1,
                        old(self).transport().inbound().len() as int,
                    )
                    &&& final(self).stats_view() == after_receive(
                        old(self).stats_view(),
                        message@.payload.len(),
                    )
                    &&& final(self).unknown_sources() == (if peer_at(old(self).peers(), address)
                        is None {
                        saturating_sum(old(self).unknown_sources(), 1)
                    } else {
                        old(self).unknown_sources()
                    })
                    &&& !message@.is_malformed() ==> engine_step(
                        old(self).protocols(),
                        final(self).protocols(),
                        message@,
                        old(self).sender_of(address),
                        h.outcome(),
                    )
                    &&& !message@.is_malformed() ==> crate::network::frame_views(h.frames@)
                        == route_all(&old(self).transport(), crate::protocol::views(h.responses@))
                    &&& !message@.is_malformed() ==> h.handler_results@.len() == old(self).handlers().len()
                        && final(self).handlers().len() == old(self).handlers().len() && (forall|i: int|
                        0 <= i < old(self).handlers().len() ==> (#[trigger] old(self).handlers()[i]).accepts(
                            message@,
                            old(self).sender_of(address),
                            &final(self).handlers()[i],
                            h.handler_results@[i] is Ok,
                        ))
                    &&& message@.is_malformed() ==> h.protocol_error is Some && h.frames@.len() == 0
                        && final(self).protocols() == old(self).protocols() && final(self).handlers() == old(self).handlers()
                },
                None => {
                    &&& final(self).transport().inbound() == old(self).transport().inbound()
                    &&& final(self).protocols() == old(self).protocols()
                    &&& final(self).handlers() == old(self).handlers()
                    &&& final(self).stats_view() == old(self).stats_view()
                    &&& final(self).unknown_sources() == old(self).unknown_sources()
                },
            },
    {
        if !self.running {
            return None;
        }
        match self.transport.receive_message() {
            Some((message, address)) => {
                let ghost mid = self.transport;
                let h = self.on_inbound(&message, address);
                proof {
                    lemma_route_all_same_connections(
                        &mid,
                        &old(self).transport(),
                        crate::protocol::views(h.responses@),
                    );
                }
                Some(h)
            },
            None => None,
        }
    }

    /// Takes in one frame read from the stream of the peer at `from`; see
    /// `NetworkTransport::accept_frame`.
    pub fn accept_frame(&mut self, bytes: &[u8], from: Endpoint) -> (queued: bool)
        ensures
            queued == (crate::codec::parse_message(bytes@) is Some),
            final(self).same_engine(old(self)),
            final(self).peers() == old(self).peers(),
            final(self).is_running() == old(self).is_running(),
            final(self).transport().same_identity(&old(self).transport()),
            final(self).transport().connections() == old(self).transport().connections(),
            final(self).transport().stats_view() == old(self).transport().stats_view(),
            queued ==> final(self).transport().inbound().len() == old(self).transport().inbound().len() + 1 && final(self).transport().inbound().drop_last()
                == old(self).transport().inbound() && final(self).transport().inbound().last().0@
                == crate::codec::parse_message(bytes@).unwrap() && final(self).transport().inbound().last().1 == from,
            !queued ==> final(self).transport().inbound() == old(self).transport().inbound()
                && final(self).transport().dropped() == saturating_sum(
                old(self).transport().dropped(),
                1,
            ),
    {
        self.transport.accept_frame(bytes, from)
    }

    /// Takes in one datagram received from `from`; see
    /// `NetworkTransport::accept_datagram`.
    pub fn accept_datagram(&mut self, bytes: &[u8], from: Endpoint) -> (queued: bool)
        ensures
            queued == (bytes@.len() <= crate::codec::MAX_DATAGRAM_LEN && crate::codec::parse_message(
                bytes@,
            ) is Some),
            final(self).same_engine(old(self)),
            final(self).peers() == old(self).peers(),
            final(self).is_running() == old(self).is_running(),
            final(self).transport().same_identity(&old(self).transport()),
            final(self).transport().connections() == old(self).transport().connections(),
            final(self).transport().stats_view() == old(self).transport().stats_view(),
            queued ==> final(self).transport().inbound().len() == old(self).transport().inbound().len() + 1 && final(self).transport().inbound().drop_last()
                == old(self).transport().inbound() && final(self).transport().inbound().last().0@
                == crate::codec::parse_message(bytes@).unwrap() && final(self).transport().inbound().last().1 == from,
            !queued ==> final(self).transport().inbound() == old(self).transport().inbound()
                && final(self).transport().dropped() == saturating_sum(
                old(self).transport().dropped(),
                1,
            ),
    {
        self.transport.accept_datagram(bytes, from)
    }

    /// Records that the stream to `peer_id` has closed; see
    /// `NetworkTransport::connection_closed`.
    pub fn connection_closed(&mut self, peer_id: &NodeId)
        ensures
            final(self).same_engine(old(self)),
            final(self).peers() == old(self).peers(),
            final(self).is_running() == old(self).is_running(),
            final(self).transport().same_identity(&old(self).transport()),
            final(self).transport().stats_view() == old(self).transport().stats_view(),
            final(self).transport().inbound() == old(self).transport().inbound(),
            final(self).transport().connections().len() == old(self).transport().connections().len(),
            has_key(old(self).transport().connections(), peer_id@) ==> !final(self).transport().connections()[key_index(
                old(self).transport().connections(),
                peer_id@,
            )].1.live,
    {
        self.transport.connection_closed(peer_id);
    }

    /// Records that the listener has stopped on an error; see
    /// `NetworkTransport::listener_failed`.
    pub fn listener_failed(&mut self, detail: String)
        ensures
            final(self).same_engine(old(self)),
            final(self).peers() == old(self).peers(),
            final(self).is_running() == old(self).is_running(),
            final(self).transport().failure() == Some(detail@),
            final(self).transport().connections() == old(self).transport().connections(),
            final(self).transport().stats_view() == old(self).transport().stats_view(),
            final(self).transport().inbound() == old(self).transport().inbound(),
    {
        self.transport.listener_failed(detail);
    }

    /// The number of frames and datagrams that the transport dropped
    /// because they did not decode.
    pub fn dropped_count(&self) -> (n: u64)
        ensures
            n == self.transport().dropped(),
    {
        self.transport.dropped_count()
    }

    /// The number of inbound messages whose sender was known only by its
    /// endpoint.
    pub fn unknown_source_count(&self) -> (n: u64)
        ensures
            n == self.unknown_sources(),
    {
        self.unknown_sources
    }
}


impl<H: MessageHandler> Node<H> {
    /// Sweeps the seen-sets of the node's forwarders: identifiers met 300
    /// seconds or more before `now` are forgotten. To be called every 60
    /// seconds while the node runs.
    pub fn sweep(&mut self, now: u64)
        ensures
            final(self).same_surroundings(old(self)),
            final(self).handlers() == old(self).handlers(),
            final(self).stats_view() == old(self).stats_view(),
            final(self).unknown_sources() == old(self).unknown_sources(),
            final(self).protocols().len() == old(self).protocols().len(),
            forall|i: int|
                0 <= i < old(self).protocols().len() ==> (#[trigger] old(self).protocols()[i]).swept(
                    &final(self).protocols()[i],
                    now,
                ),
            forall|tag: ProtocolType| final(self).registered(tag) == old(self).registered(tag),
    {
        self.protocols.sweep(now);
        assert forall|tag: ProtocolType| self.registered(tag) == old(self).registered(tag) by {
            assert(self.protocols.has(tag) == old(self).protocols.has(tag));
        }
    }
}

/// A node with the given configuration; see `Node::new`.
pub fn create_node<H: MessageHandler>(config: NodeConfig) -> (r: Result<Node<H>, Error>)
    ensures
        r matches Ok(n) && n.spec_config() == config && !n.is_running() && (forall|tag: ProtocolType|
            n.registered(tag) == Node::<H>::registers(config.protocol, tag)),
{
    Node::new(config)
}

} // verus!
