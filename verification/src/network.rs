//! The transport's bookkeeping: which peers are connected, what goes out to
//! whom, what comes in, and the counters. The sockets themselves belong to
//! the program that embeds the library: it dials, reads and writes, and
//! tells the transport what happened.

use vstd::prelude::*;
use vstd::string::StringExecFns;
use std::collections::VecDeque;
use crate::codec::{
    decode_datagram, decode_message, encode_message, frame, framed, message_wire, parse_message,
    MAX_DATAGRAM_LEN, MAX_FRAME_LEN,
};
use crate::error::Error;
use crate::idmap::{has_key, key_index, IdMap};
use crate::protocol::saturating_sum;
use crate::text::{decimal, decimal_text};
use crate::hexcode::hex_chars;
use crate::types::{Endpoint, MeshStats, Message, MessageView, NodeId, Peer};

verus! {

/// A connection to a peer, as the transport knows it.
pub struct PeerConnection {
    pub peer: Peer,
    /// Whether a stream to the peer is open.
    pub live: bool,
    /// The instant, in seconds, at which the connection was last used.
    pub last_seen: u64,
}

/// The identifiers of the connections with an open stream, in table order.
pub open spec fn live_targets(connections: Seq<(NodeId, PeerConnection)>) -> Seq<NodeId>
    decreases connections.len(),
{
    if connections.len() == 0 {
        Seq::empty()
    } else if connections.last().1.live {
        live_targets(connections.drop_last()).push(connections.last().0)
    } else {
        live_targets(connections.drop_last())
    }
}

/// A message as one stream frame.
pub open spec fn frame_of(m: MessageView) -> Seq<u8> {
    framed(message_wire(m))
}

/// Whether the encoding of a message fits in one frame.
pub open spec fn fits_frame(m: MessageView) -> bool {
    message_wire(m).len() <= MAX_FRAME_LEN
}

/// What a broadcast asks the embedding program to do, and how many peers it
/// could not serve.
pub struct Broadcast {
    /// One frame per peer with an open stream, in table order.
    pub frames: Vec<(NodeId, Vec<u8>)>,
    /// The number of peers for which no frame could be made.
    pub failures: usize,
}

/// The text of the error for a broadcast that failed for `failures` peers.
pub open spec fn broadcast_failure(failures: nat) -> Seq<char> {
    "Broadcast failed with "@ + decimal_text(failures) + " errors"@
}

/// The result of a broadcast in which `failures` sends failed: success when
/// none did, else `Network` naming the count.
pub fn broadcast_result(failures: usize) -> (r: Result<(), Error>)
    ensures
        match r {
            Ok(_) => failures == 0,
            Err(e) => failures > 0 && e is Network && e.detail() == broadcast_failure(
                failures as nat,
            ),
        },
{
    if failures == 0 {
        Ok(())
    } else {
        let text = String::from_str("Broadcast failed with ").concat(
            decimal(failures).as_str(),
        ).concat(" errors");
        Err(Error::Network(text))
    }
}

/// The counters after one frame of `frame_len` bytes went out.
pub open spec fn after_send(stats: MeshStats, frame_len: nat) -> MeshStats {
    MeshStats {
        messages_sent: saturating_sum(stats.messages_sent, 1),
        bytes_sent: saturating_sum(stats.bytes_sent, frame_len),
        ..stats
    }
}

/// The transport of a node.
pub struct NetworkTransport {
    node_id: NodeId,
    listen_addr: Endpoint,
    started: bool,
    failure: Option<String>,
    peers: IdMap<PeerConnection>,
    inbound: VecDeque<(Message, Endpoint)>,
    dropped: u64,
    stats: MeshStats,
}

impl NetworkTransport {
    pub closed spec fn node_id(&self) -> NodeId {
        self.node_id
    }

    pub closed spec fn listen_addr(&self) -> Endpoint {
        self.listen_addr
    }

    /// Whether `start` has succeeded.
    pub closed spec fn is_started(&self) -> bool {
        self.started
    }

    /// The account of the failure that stopped the listener, if it has
    /// stopped.
    pub closed spec fn failure(&self) -> Option<Seq<char>> {
        match self.failure {
            Some(s) => Some(s@),
            None => None,
        }
    }

    /// The connections, in order of first arrival.
    pub closed spec fn connections(&self) -> Seq<(NodeId, PeerConnection)> {
        self.peers.entries()
    }

    /// The messages received and not yet handed out, oldest first.
    pub closed spec fn inbound(&self) -> Seq<(Message, Endpoint)> {
        self.inbound@
    }

    /// The number of frames and datagrams dropped because they did not
    /// decode.
    pub closed spec fn dropped(&self) -> u64 {
        self.dropped
    }

    pub closed spec fn stats_view(&self) -> MeshStats {
        self.stats
    }

    /// Everything but the counters, the queue and the connections is as in
    /// `before`.
    pub open spec fn same_identity(&self, before: &Self) -> bool {
        &&& self.node_id() == before.node_id()
        &&& self.listen_addr() == before.listen_addr()
        &&& self.is_started() == before.is_started()
        &&& self.failure() == before.failure()
    }

    /// A transport for `node_id` on `listen_addr`, not yet started, without
    /// connections.
    pub fn new(node_id: NodeId, listen_addr: Endpoint) -> (t: NetworkTransport)
        ensures
            t.node_id() == node_id,
            t.listen_addr() == listen_addr,
            !t.is_started(),
            t.failure() is None,
            t.connections() == Seq::<(NodeId, PeerConnection)>::empty(),
            t.inbound() == Seq::<(Message, Endpoint)>::empty(),
            t.dropped() == 0,
            t.stats_view() == MeshStats::zero(),
    {
        NetworkTransport {
            node_id,
            listen_addr,
            started: false,
            failure: None,
            peers: IdMap::new(),
            inbound: VecDeque::new(),
            dropped: 0,
            stats: MeshStats::default(),
        }
    }

    /// Marks the transport as started. A transport starts once: a second
    /// start fails with `Network`.
    pub fn start(&mut self) -> (r: Result<(), Error>)
        ensures
            match r {
                Ok(_) => !old(self).is_started() && final(self).is_started(),
                Err(e) => old(self).is_started() && final(self).is_started() && e is Network,
            },
            final(self).node_id() == old(self).node_id(),
            final(self).listen_addr() == old(self).listen_addr(),
            final(self).failure() == old(self).failure(),
            final(self).connections() == old(self).connections(),
            final(self).inbound() == old(self).inbound(),
            final(self).dropped() == old(self).dropped(),
            final(self).stats_view() == old(self).stats_view(),
    {
        if self.started {
            return Err(Error::Network(String::from_str("TCP listener not available")));
        }
        self.started = true;
        Ok(())
    }

    /// Records that the listener has stopped on an error. Every later send
    /// and connect reports it.
    pub fn listener_failed(&mut self, detail: String)
        ensures
            final(self).failure() == Some(detail@),
            final(self).node_id() == old(self).node_id(),
            final(self).listen_addr() == old(self).listen_addr(),
            final(self).is_started() == old(self).is_started(),
            final(self).connections() == old(self).connections(),
            final(self).inbound() == old(self).inbound(),
            final(self).dropped() == old(self).dropped(),
            final(self).stats_view() == old(self).stats_view(),
    {
        self.failure = Some(detail);
    }

    fn check_listener(&self) -> (r: Result<(), Error>)
        ensures
            match r {
                Ok(_) => self.failure() is None,
                Err(e) => self.failure() == Some(e.detail()) && e is Network,
            },
    {
        match &self.failure {
            Some(detail) => Err(Error::Network(detail.clone())),
            None => Ok(()),
        }
    }

    /// The endpoint to dial for `peer`: the first of its addresses. A peer
    /// without addresses cannot be connected.
    pub fn dial_target(peer: &Peer) -> (r: Result<Endpoint, Error>)
        ensures
            match r {
                Ok(target) => peer@.addresses.len() > 0 && target == peer@.addresses[0],
                Err(e) => peer@.addresses.len() == 0 && e is Network && e.detail()
                    == "Peer has no addresses"@,
            },
    {
        if peer.addresses.len() == 0 {
            return Err(Error::Network(String::from_str("Peer has no addresses")));
        }
        Ok(peer.addresses[0])
    }

    /// Installs the connection to `peer`, whose first address was dialled
    /// with success at the instant `now`. It fails with `Network`, and
    /// changes nothing, when the listener has failed or the peer has no
    /// address.
    pub fn connect_to_peer(&mut self, peer: Peer, now: u64) -> (r: Result<(), Error>)
        ensures
            final(self).same_identity(old(self)),
            final(self).inbound() == old(self).inbound(),
            final(self).dropped() == old(self).dropped(),
            final(self).stats_view() == old(self).stats_view(),
            crate::idmap::distinct_keys(final(self).connections()),
            match r {
                Ok(_) => {
                    let entry = (peer.id, PeerConnection { peer, live: true, last_seen: now });
                    &&& has_key(final(self).connections(), peer.id@)
                    &&& final(self).connections()[key_index(final(self).connections(), peer.id@)].1
                        == entry.1
                    &&& old(self).failure() is None
                    &&& peer@.addresses.len() > 0
                    &&& final(self).connections() == (if has_key(
                        old(self).connections(),
                        peer.id@,
                    ) {
                        old(self).connections().update(
                            key_index(old(self).connections(), peer.id@),
                            entry,
                        )
                    } else {
                        old(self).connections().push(entry)
                    })
                },
                Err(e) => {
                    &&& e is Network
                    &&& old(self).failure() is Some || peer@.addresses.len() == 0
                    &&& final(self).connections() == old(self).connections()
                },
            },
    {
        // Calling `len` recalls that no key occurs twice in the table.
        let _ = self.peers.len();
        match self.check_listener() {
            Ok(_) => {},
            Err(e) => { return Err(e); },
        }
        match NetworkTransport::dial_target(&peer) {
            Ok(_) => {},
            Err(e) => { return Err(e); },
        }
        let id = peer.id;
        let _ = self.peers.insert(id, PeerConnection { peer, live: true, last_seen: now });
        Ok(())
    }

    /// Records that the stream to `peer_id` has closed. The peer stays in
    /// the table, without a stream.
    pub fn connection_closed(&mut self, peer_id: &NodeId)
        ensures
            final(self).same_identity(old(self)),
            final(self).inbound() == old(self).inbound(),
            final(self).dropped() == old(self).dropped(),
            final(self).stats_view() == old(self).stats_view(),
            final(self).connections() == (if has_key(old(self).connections(), peer_id@) {
                let i = key_index(old(self).connections(), peer_id@);
                old(self).connections().update(
                    i,
                    (
                        old(self).connections()[i].0,
                        PeerConnection { live: false, ..old(self).connections()[i].1 },
                    ),
                )
            } else {
                old(self).connections()
            }),
    {
        match self.peers.find(peer_id) {
            Some(i) => {
                let key = self.peers.key_at(i);
                match self.peers.remove(peer_id) {
                    Some(connection) => {
                        let mut connection = connection;
                        connection.live = false;
                        self.peers.insert_at(i, key, connection);
                        assert(self.connections() =~= old(self).connections().update(
                            i as int,
                            (
                                old(self).connections()[i as int].0,
                                PeerConnection {
                                    live: false,
                                    ..old(self).connections()[i as int].1
                                },
                            ),
                        ));
                    },
                    None => {},
                }
            },
            None => {},
        }
    }
}


/// The text by which an identifier is named in messages for people.
pub open spec fn short_id(id: Seq<u8>) -> Seq<char> {
    hex_chars(id.subrange(0, 8))
}

impl NetworkTransport {
    fn frame_message(message: &Message) -> (r: Result<Vec<u8>, Error>)
        ensures
            match r {
                Ok(bytes) => fits_frame(message@) && bytes@ == frame_of(message@),
                Err(e) => !fits_frame(message@) && e is Network,
            },
    {
        let data = encode_message(message);
        frame(data.as_slice())
    }

    /// Whether a frame for `peer` can be made from `m`: the listener has
    /// not failed, a connection to the peer is known and has an open
    /// stream, and the message fits in a frame.
    pub open spec fn can_send(&self, m: MessageView, peer: Seq<u8>) -> bool {
        &&& self.failure() is None
        &&& has_key(self.connections(), peer)
        &&& self.connections()[key_index(self.connections(), peer)].1.live
        &&& fits_frame(m)
    }

    /// Whether `e` is the error owed for a frame that cannot be made: the
    /// first of the listener's failure (`Network`), an unknown peer
    /// (`PeerNotFound`), a connection without a stream (`Network`), a
    /// message too large for a frame (`Network`).
    pub open spec fn send_error(&self, m: MessageView, peer: Seq<u8>, e: Error) -> bool {
        if self.failure() is Some {
            e is Network && Some(e.detail()) == self.failure()
        } else if !has_key(self.connections(), peer) {
            e is PeerNotFound && e.detail() == short_id(peer)
        } else if !self.connections()[key_index(self.connections(), peer)].1.live {
            e is Network && e.detail() == "No active connection to peer"@
        } else {
            e is Network && !fits_frame(m)
        }
    }

    /// Makes the frame that carries `message` to `peer_id`, or says why it
    /// cannot. The transport is not changed: once the frame is written,
    /// `record_sent` counts it.
    pub fn send_message(&self, message: &Message, peer_id: &NodeId) -> (r: Result<Vec<u8>, Error>)
        ensures
            match r {
                Ok(bytes) => self.can_send(message@, peer_id@) && bytes@ == frame_of(message@),
                Err(e) => !self.can_send(message@, peer_id@) && self.send_error(
                    message@,
                    peer_id@,
                    e,
                ),
            },
    {
        match self.check_listener() {
            Ok(_) => {},
            Err(e) => { return Err(e); },
        }
        match self.peers.get(peer_id) {
            Some(connection) => {
                if connection.live {
                    NetworkTransport::frame_message(message)
                } else {
                    Err(Error::Network(String::from_str("No active connection to peer")))
                }
            },
            None => Err(Error::PeerNotFound(peer_id.to_string())),
        }
    }

    /// Counts one frame of `frame_len` bytes as sent.
    pub fn record_sent(&mut self, frame_len: usize)
        ensures
            final(self).stats_view() == after_send(old(self).stats_view(), frame_len as nat),
            final(self).same_identity(old(self)),
            final(self).connections() == old(self).connections(),
            final(self).inbound() == old(self).inbound(),
            final(self).dropped() == old(self).dropped(),
    {
        self.stats.messages_sent = self.stats.messages_sent.saturating_add(1);
        self.stats.bytes_sent = self.stats.bytes_sent.saturating_add(frame_len as u64);
    }

    /// Makes the frames that carry `message` to every peer with an open
    /// stream, in table order, and counts the peers that cannot be served:
    /// those without a stream, or all of them when the listener has failed
    /// or the message does not fit in a frame. No peer is skipped because
    /// another failed.
    pub fn broadcast_message(&self, message: &Message) -> (b: Broadcast)
        ensures
            if self.failure() is None && fits_frame(message@) {
                &&& b.frames@.len() == live_targets(self.connections()).len()
                &&& forall|i: int|
                    0 <= i < b.frames@.len() ==> (#[trigger] b.frames@[i]).0 == live_targets(
                        self.connections(),
                    )[i] && b.frames@[i].1@ == frame_of(message@)
                &&& b.failures == self.connections().len() - live_targets(
                    self.connections(),
                ).len()
            } else {
                b.frames@.len() == 0 && b.failures == self.connections().len()
            },
    {
        let count = self.peers.len();
        let mut frames: Vec<(NodeId, Vec<u8>)> = Vec::new();
        if self.check_listener().is_err() {
            return Broadcast { frames, failures: count };
        }
        let bytes = match NetworkTransport::frame_message(message) {
            Ok(bytes) => bytes,
            Err(_) => { return Broadcast { frames, failures: count }; },
        };
        let mut failures: usize = 0;
        let mut i: usize = 0;
        while i < count
            invariant
                i <= count,
                count == self.connections().len(),
                bytes@ == frame_of(message@),
                frames@.len() == live_targets(self.connections().subrange(0, i as int)).len(),
                forall|k: int|
                    0 <= k < frames@.len() ==> (#[trigger] frames@[k]).0 == live_targets(
                        self.connections().subrange(0, i as int),
                    )[k] && frames@[k].1@ == frame_of(message@),
                failures + frames@.len() == i,
            decreases count - i,
        {
            proof {
                let next = self.connections().subrange(0, i + 1);
                assert(next.drop_last() =~= self.connections().subrange(0, i as int));
                assert(next.last() == self.connections()[i as int]);
            }
            if self.peers.value_at(i).live {
                frames.push((self.peers.key_at(i), crate::types::copy_bytes(&bytes)));
            } else {
                failures += 1;
            }
            i += 1;
        }
        assert(self.connections().subrange(0, count as int) =~= self.connections());
        Broadcast { frames, failures }
    }

    /// Takes in one frame read from the stream of the peer at `from`. A
    /// frame that decodes as a message is queued; any other is dropped and
    /// counted.
    pub fn accept_frame(&mut self, bytes: &[u8], from: Endpoint) -> (queued: bool)
        ensures
            queued == (parse_message(bytes@) is Some),
            final(self).same_identity(old(self)),
            final(self).connections() == old(self).connections(),
            final(self).stats_view() == old(self).stats_view(),
            if queued {
                &&& final(self).dropped() == old(self).dropped()
                &&& final(self).inbound().len() == old(self).inbound().len() + 1
                &&& final(self).inbound().drop_last() == old(self).inbound()
                &&& final(self).inbound().last().0@ == parse_message(bytes@).unwrap()
                &&& final(self).inbound().last().1 == from
            } else {
                &&& final(self).dropped() == saturating_sum(old(self).dropped(), 1)
                &&& final(self).inbound() == old(self).inbound()
            },
    {
        match decode_message(bytes) {
            Ok(message) => {
                self.inbound.push_back((message, from));
                assert(self.inbound@.drop_last() =~= old(self).inbound());
                true
            },
            Err(_) => {
                self.dropped = self.dropped.saturating_add(1);
                false
            },
        }
    }

    /// Takes in one datagram received from `from`. A datagram of at most
    /// `MAX_DATAGRAM_LEN` bytes that decodes as a message is queued; any
    /// other is dropped and counted.
    pub fn accept_datagram(&mut self, bytes: &[u8], from: Endpoint) -> (queued: bool)
        ensures
            queued == (bytes@.len() <= MAX_DATAGRAM_LEN && parse_message(bytes@) is Some),
            final(self).same_identity(old(self)),
            final(self).connections() == old(self).connections(),
            final(self).stats_view() == old(self).stats_view(),
            if queued {
                &&& final(self).dropped() == old(self).dropped()
                &&& final(self).inbound().len() == old(self).inbound().len() + 1
                &&& final(self).inbound().drop_last() == old(self).inbound()
                &&& final(self).inbound().last().0@ == parse_message(bytes@).unwrap()
                &&& final(self).inbound().last().1 == from
            } else {
                &&& final(self).dropped() == saturating_sum(old(self).dropped(), 1)
                &&& final(self).inbound() == old(self).inbound()
            },
    {
        match decode_datagram(bytes) {
            Ok(message) => {
                self.inbound.push_back((message, from));
                assert(self.inbound@.drop_last() =~= old(self).inbound());
                true
            },
            Err(_) => {
                self.dropped = self.dropped.saturating_add(1);
                false
            },
        }
    }

    /// Hands out the oldest message received, with the endpoint it came
    /// from; nothing when none is waiting.
    pub fn receive_message(&mut self) -> (r: Option<(Message, Endpoint)>)
        ensures
            final(self).same_identity(old(self)),
            final(self).connections() == old(self).connections(),
            final(self).stats_view() == old(self).stats_view(),
            final(self).dropped() == old(self).dropped(),
            match r {
                Some(pair) => old(self).inbound().len() > 0 && pair == old(self).inbound()[0]
                    && final(self).inbound() == old(self).inbound().subrange(
                    1,
                    old(self).inbound().len() as int,
                ),
                None => old(self).inbound().len() == 0 && final(self).inbound() == old(self).inbound(),
            },
    {
        self.inbound.pop_front()
    }

    /// Forgets the connection to `peer_id`, if there is one. It always
    /// succeeds.
    pub fn disconnect_peer(&mut self, peer_id: &NodeId) -> (r: Result<(), Error>)
        ensures
            r is Ok,
            !has_key(final(self).connections(), peer_id@),
            final(self).connections() == (if has_key(old(self).connections(), peer_id@) {
                old(self).connections().remove(key_index(old(self).connections(), peer_id@))
            } else {
                old(self).connections()
            }),
            final(self).same_identity(old(self)),
            final(self).inbound() == old(self).inbound(),
            final(self).stats_view() == old(self).stats_view(),
            final(self).dropped() == old(self).dropped(),
    {
        let _ = self.peers.remove(peer_id);
        Ok(())
    }

    /// The peers of all connections, in table order.
    pub fn get_peers(&self) -> (peers: Vec<Peer>)
        ensures
            peers@.len() == self.connections().len(),
            forall|i: int|
                0 <= i < peers@.len() ==> (#[trigger] peers@[i])@ == self.connections()[i].1.peer@,
    {
        let count = self.peers.len();
        let mut peers: Vec<Peer> = Vec::new();
        let mut i: usize = 0;
        while i < count
            invariant
                i <= count,
                count == self.connections().len(),
                peers@.len() == i,
                forall|k: int|
                    0 <= k < i ==> (#[trigger] peers@[k])@ == self.connections()[k].1.peer@,
            decreases count - i,
        {
            peers.push(self.peers.value_at(i).peer.clone());
            i += 1;
        }
        peers
    }

    /// The number of connections.
    pub fn connection_count(&self) -> (n: usize)
        ensures
            n == self.connections().len(),
    {
        self.peers.len()
    }

    /// Whether a connection to `peer_id` is known.
    pub fn is_connected(&self, peer_id: &NodeId) -> (known: bool)
        ensures
            known == has_key(self.connections(), peer_id@),
    {
        self.peers.contains_key(peer_id)
    }

    /// A snapshot of the counters, with the number of connections as the
    /// number of connected peers.
    pub fn get_stats(&self) -> (s: MeshStats)
        ensures
            s == (MeshStats {
                peers_connected: self.connections().len() as usize,
                ..self.stats_view()
            }),
    {
        let mut s = self.stats;
        s.peers_connected = self.peers.len();
        s
    }

    /// The number of frames and datagrams dropped so far.
    pub fn dropped_count(&self) -> (n: u64)
        ensures
            n == self.dropped(),
    {
        self.dropped
    }
}


/// What goes out for one message: the frames to write, each with the peer
/// it is for, and the result to report once they are written.
pub struct Outbound {
    pub frames: Vec<(NodeId, Vec<u8>)>,
    pub result: Result<(), Error>,
}

/// Frames with their targets, both taken by their views.
pub open spec fn frame_views(frames: Seq<(NodeId, Vec<u8>)>) -> Seq<(Seq<u8>, Seq<u8>)> {
    Seq::new(frames.len(), |i: int| (frames[i].0@, frames[i].1@))
}

/// One copy of `frame` for each of `targets`.
pub open spec fn copies(targets: Seq<NodeId>, frame: Seq<u8>) -> Seq<(Seq<u8>, Seq<u8>)> {
    Seq::new(targets.len(), |i: int| (targets[i]@, frame))
}

impl NetworkTransport {
    /// The peers that a broadcast of `m` reaches: every peer with an open
    /// stream, unless the listener has failed or the message does not fit
    /// in a frame.
    pub open spec fn broadcast_targets(&self, m: MessageView) -> Seq<NodeId> {
        if self.failure() is None && fits_frame(m) {
            live_targets(self.connections())
        } else {
            Seq::empty()
        }
    }

    /// The frames that sending `m` takes: one for its destination if it
    /// names one and a frame can be made for it, else one for each peer
    /// that a broadcast reaches.
    pub open spec fn route(&self, m: MessageView) -> Seq<(Seq<u8>, Seq<u8>)> {
        match m.to {
            Some(to) => if self.can_send(m, to) {
                seq![(to, frame_of(m))]
            } else {
                Seq::empty()
            },
            None => copies(self.broadcast_targets(m), frame_of(m)),
        }
    }

    /// Whether `result` is what sending `m` reports: for a message with a
    /// destination, success or the error owed for that peer; for a
    /// broadcast, success when every connection is served, else `Network`
    /// naming the number that are not.
    pub open spec fn route_result(&self, m: MessageView, result: Result<(), Error>) -> bool {
        match m.to {
            Some(to) => match result {
                Ok(_) => self.can_send(m, to),
                Err(e) => !self.can_send(m, to) && self.send_error(m, to, e),
            },
            None => {
                let failures = self.connections().len() - self.broadcast_targets(m).len();
                match result {
                    Ok(_) => failures == 0,
                    Err(e) => failures > 0 && e is Network && e.detail() == broadcast_failure(
                        failures as nat,
                    ),
                }
            },
        }
    }

    /// Decides what goes out for `message`: to its destination if it names
    /// one, else to every connected peer.
    pub fn dispatch(&self, message: &Message) -> (out: Outbound)
        ensures
            frame_views(out.frames@) == self.route(message@),
            self.route_result(message@, out.result),
    {
        let mut frames: Vec<(NodeId, Vec<u8>)> = Vec::new();
        match &message.to {
            Some(to) => {
                match self.send_message(message, to) {
                    Ok(bytes) => {
                        frames.push((*to, bytes));
                        assert(frame_views(frames@) =~= seq![(to@, frame_of(message@))]);
                        Outbound { frames, result: Ok(()) }
                    },
                    Err(e) => {
                        assert(frame_views(frames@) =~= Seq::<(Seq<u8>, Seq<u8>)>::empty());
                        Outbound { frames, result: Err(e) }
                    },
                }
            },
            None => {
                let b = self.broadcast_message(message);
                let result = broadcast_result(b.failures);
                assert(frame_views(b.frames@) =~= copies(
                    self.broadcast_targets(message@),
                    frame_of(message@),
                ));
                Outbound { frames: b.frames, result }
            },
        }
    }
}


/// Seconds between two announcements of a node on the discovery group.
pub const ANNOUNCE_INTERVAL_SECS: u64 = 30;

/// Largest discovery datagram that is read.
pub const MAX_ANNOUNCEMENT_LEN: usize = 1024;

/// Discovery of peers by multicast announcements. It only ever adds peers:
/// whether a peer is still there is told by the time it was last seen.
pub struct UdpDiscovery {
    node_id: NodeId,
    listen_addr: Endpoint,
    group: Endpoint,
    discovered_peers: IdMap<Peer>,
}

impl UdpDiscovery {
    pub closed spec fn node_id(&self) -> NodeId {
        self.node_id
    }

    pub closed spec fn listen_addr(&self) -> Endpoint {
        self.listen_addr
    }

    /// The multicast group that was joined.
    pub closed spec fn group(&self) -> Endpoint {
        self.group
    }

    /// The peers learnt so far, in order of first arrival.
    pub closed spec fn discovered(&self) -> Seq<(NodeId, Peer)> {
        self.discovered_peers.entries()
    }

    /// Discovery for `node_id` on the group `multicast_addr`. An address
    /// that is no multicast address cannot be joined: it is refused with
    /// `Network`.
    pub fn new(node_id: NodeId, listen_addr: Endpoint, multicast_addr: Endpoint) -> (r: Result<
        UdpDiscovery,
        Error,
    >)
        ensures
            match r {
                Ok(d) => {
                    &&& multicast_addr.ip.spec_is_multicast()
                    &&& d.node_id() == node_id
                    &&& d.listen_addr() == listen_addr
                    &&& d.group() == multicast_addr
                    &&& d.discovered() == Seq::<(NodeId, Peer)>::empty()
                },
                Err(e) => !multicast_addr.ip.spec_is_multicast() && e is Network,
            },
    {
        if !multicast_addr.ip.is_multicast() {
            return Err(Error::Network(String::from_str("Failed to join multicast group")));
        }
        Ok(UdpDiscovery { node_id, listen_addr, group: multicast_addr, discovered_peers: IdMap::new() })
    }

    /// The record by which the node announces itself at the instant `now`:
    /// its identifier and its listen endpoint.
    pub fn announcement(&self, now: u64) -> (p: Peer)
        ensures
            p@ == crate::types::PeerView::sighted(self.node_id()@, self.listen_addr(), now),
    {
        Peer::sighted(self.node_id, self.listen_addr, now)
    }

    /// Takes in an announced peer. The node's own announcement is ignored;
    /// any other peer is added, or takes the place of what was known under
    /// its identifier.
    pub fn learn(&mut self, peer: Peer) -> (learnt: bool)
        ensures
            learnt == (peer.id@ != old(self).node_id()@),
            final(self).node_id() == old(self).node_id(),
            final(self).listen_addr() == old(self).listen_addr(),
            final(self).group() == old(self).group(),
            final(self).discovered() == (if !learnt {
                old(self).discovered()
            } else if has_key(old(self).discovered(), peer.id@) {
                old(self).discovered().update(
                    key_index(old(self).discovered(), peer.id@),
                    (peer.id, peer),
                )
            } else {
                old(self).discovered().push((peer.id, peer))
            }),
    {
        if peer.id == self.node_id {
            return false;
        }
        let id = peer.id;
        let _ = self.discovered_peers.insert(id, peer);
        true
    }

    /// The peers learnt so far, in order of first arrival.
    pub fn get_discovered_peers(&self) -> (peers: Vec<Peer>)
        ensures
            peers@.len() == self.discovered().len(),
            forall|i: int|
                0 <= i < peers@.len() ==> (#[trigger] peers@[i])@ == self.discovered()[i].1@,
    {
        let count = self.discovered_peers.len();
        let mut peers: Vec<Peer> = Vec::new();
        let mut i: usize = 0;
        while i < count
            invariant
                i <= count,
                count == self.discovered().len(),
                peers@.len() == i,
                forall|k: int| 0 <= k < i ==> (#[trigger] peers@[k])@ == self.discovered()[k].1@,
            decreases count - i,
        {
            peers.push(self.discovered_peers.value_at(i).clone());
            i += 1;
        }
        peers
    }

    /// The number of peers learnt so far.
    pub fn discovered_count(&self) -> (n: usize)
        ensures
            n == self.discovered().len(),
    {
        self.discovered_peers.len()
    }
}

} // verus!
