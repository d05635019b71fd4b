//! The dissemination protocols and the registry that dispatches to them.
//!
//! A protocol takes an inbound message and the peer it came from and
//! answers with the messages to send out. Flooding and gossip forward every
//! message they have not met before and that has hops left; consensus counts
//! votes on proposals and acknowledges what it receives.

use vstd::prelude::*;
use vstd::string::StringExecFns;
pub use crate::consensus::ConsensusProtocol;
use crate::error::Error;
use crate::platform::unix_seconds;
use crate::seen::{fresh_entries, recorded, SeenSet};
use crate::types::{Message, MessageView, NodeId, ProtocolType};

verus! {

/// `x + y`, held at the largest value that fits.
pub open spec fn saturating_sum(x: u64, y: nat) -> u64 {
    if x + y > u64::MAX {
        u64::MAX
    } else {
        (x + y) as u64
    }
}

/// Counters of one protocol. They stop at the largest value that fits.
#[derive(Clone, Copy, Debug, PartialEq, Eq, Structural)]
pub struct ProtocolStats {
    pub messages_processed: u64,
    pub messages_sent: u64,
    pub bytes_processed: u64,
    pub errors: u64,
}

impl ProtocolStats {
    /// Counters that have counted nothing.
    pub open spec fn zero() -> ProtocolStats {
        ProtocolStats { messages_processed: 0, messages_sent: 0, bytes_processed: 0, errors: 0 }
    }

    /// The counters after one message with a payload of `payload_len` bytes
    /// was handled and `sent` messages were emitted for it.
    pub open spec fn after(self, payload_len: nat, sent: nat) -> ProtocolStats {
        ProtocolStats {
            messages_processed: saturating_sum(self.messages_processed, 1),
            messages_sent: saturating_sum(self.messages_sent, sent),
            bytes_processed: saturating_sum(self.bytes_processed, payload_len),
            errors: self.errors,
        }
    }

    /// Counts one handled message with a payload of `payload_len` bytes.
    pub fn count_processed(&mut self, payload_len: usize)
        ensures
            *final(self) == old(self).after(payload_len as nat, 0),
    {
        self.messages_processed = self.messages_processed.saturating_add(1);
        self.bytes_processed = self.bytes_processed.saturating_add(payload_len as u64);
    }

    /// Counts one emitted message.
    pub fn count_sent(&mut self)
        ensures
            *final(self) == (ProtocolStats {
                messages_sent: saturating_sum(old(self).messages_sent, 1),
                ..*old(self)
            }),
    {
        self.messages_sent = self.messages_sent.saturating_add(1);
    }
}

impl Default for ProtocolStats {
    fn default() -> (s: ProtocolStats)
        ensures
            s == ProtocolStats::zero(),
    {
        ProtocolStats { messages_processed: 0, messages_sent: 0, bytes_processed: 0, errors: 0 }
    }
}

/// The views of a sequence of messages.
pub open spec fn views(messages: Seq<Message>) -> Seq<MessageView> {
    Seq::new(messages.len(), |i: int| messages[i]@)
}

/// What a handler answered, with messages taken by their views.
pub open spec fn outcome_view(r: Result<Vec<Message>, Error>) -> Result<Seq<MessageView>, Error> {
    match r {
        Ok(messages) => Ok(views(messages@)),
        Err(e) => Err(e),
    }
}

/// What a forwarder under `protocol` emits for `m`: nothing when it has met
/// the identifier before or the hop limit is used up, else the one message
/// `m` with one more hop and the forwarder's tag.
pub open spec fn forward_output(known: bool, m: MessageView, protocol: ProtocolType) -> Seq<
    MessageView,
> {
    if known || m.is_expired() {
        Seq::empty()
    } else {
        seq![m.forwarded(protocol)]
    }
}

/// An expired message is never retransmitted.
pub proof fn lemma_expired_is_not_forwarded(known: bool, m: MessageView, protocol: ProtocolType)
    requires
        m.hops >= m.ttl,
    ensures
        forward_output(known, m, protocol) == Seq::<MessageView>::empty(),
{
}

/// Once a forwarder has handled a message, a second delivery of that
/// identifier emits nothing, whatever else the second message carries and
/// whenever it arrives.
pub proof fn lemma_second_delivery_is_silent(
    seen: Map<u64, u64>,
    first: MessageView,
    second: MessageView,
    now: u64,
    protocol: ProtocolType,
)
    requires
        second.id == first.id,
    ensures
        forward_output(recorded(seen, first.id, now).dom().contains(second.id), second, protocol)
            == Seq::<MessageView>::empty(),
{
}

/// Whatever a forwarder emits is its input with one more hop: the
/// identifier, the origin and all other fields but the tag are kept.
pub proof fn lemma_forwarded_keeps_identity(
    known: bool,
    m: MessageView,
    protocol: ProtocolType,
    i: int,
)
    requires
        0 <= i < forward_output(known, m, protocol).len(),
    ensures
        forward_output(known, m, protocol).len() == 1,
        forward_output(known, m, protocol)[i].id == m.id,
        forward_output(known, m, protocol)[i].from == m.from,
        forward_output(known, m, protocol)[i].hops == m.hops + 1,
        forward_output(known, m, protocol)[i].to == m.to,
        forward_output(known, m, protocol)[i].payload == m.payload,
        forward_output(known, m, protocol)[i].ttl == m.ttl,
        forward_output(known, m, protocol)[i].protocol_type == protocol,
{
}

/// The step that flooding and gossip share: count the message, remember its
/// identifier, and forward it if it is new and has hops left.
pub fn forward(
    seen: &mut SeenSet,
    stats: &mut ProtocolStats,
    message: &Message,
    now: u64,
    protocol: ProtocolType,
) -> (out: Vec<Message>)
    ensures
        views(out@) == forward_output(old(seen).has(message.id), message@, protocol),
        final(seen).entries() == recorded(old(seen).entries(), message.id, now),
        *final(stats) == old(stats).after(message@.payload.len(), out@.len()),
{
    let mut out: Vec<Message> = Vec::new();
    stats.count_processed(message.payload.len());
    let is_new = seen.check_and_record(message.id, now);
    if !is_new || message.is_expired() {
        assert(views(out@) =~= Seq::<MessageView>::empty());
        return out;
    }
    let mut forwarded = message.clone();
    forwarded.hops += 1;
    forwarded.protocol_type = protocol;
    stats.count_sent();
    out.push(forwarded);
    assert(views(out@) =~= seq![message@.forwarded(protocol)]);
    out
}

/// A dissemination protocol.
pub trait MeshProtocol: Sized {
    /// The tag of the messages that the protocol handles. A protocol that
    /// does not say has some tag, the same in every state.
    open spec fn tag(&self) -> ProtocolType {
        arbitrary()
    }

    /// The protocol's counters.
    open spec fn counters(&self) -> ProtocolStats {
        arbitrary()
    }

    /// Whether handling `message` from `from_peer` in this state may leave
    /// the protocol in the state `after` with the answer `outcome`. A
    /// protocol that does not say is free to do anything.
    open spec fn handles(
        &self,
        message: MessageView,
        from_peer: Seq<u8>,
        after: &Self,
        outcome: Result<Seq<MessageView>, Error>,
    ) -> bool {
        true
    }

    /// Handles an inbound message and answers with the messages to send.
    fn handle_message(&mut self, message: &Message, from_peer: &NodeId) -> (r: Result<
        Vec<Message>,
        Error,
    >)
        ensures
            old(self).handles(message@, from_peer@, final(self), outcome_view(r)),
            final(self).tag() == old(self).tag(),
    ;

    /// The tag of the messages that the protocol handles.
    fn protocol_type(&self) -> (t: ProtocolType)
        ensures
            t == self.tag(),
    ;

    /// A snapshot of the protocol's counters.
    fn stats(&self) -> (s: ProtocolStats)
        ensures
            s == self.counters(),
    ;
}

/// Flooding: every message not met before is passed on to every peer.
pub struct FloodingProtocol {
    node_id: NodeId,
    seen_messages: SeenSet,
    max_ttl: u32,
    stats: ProtocolStats,
}

impl FloodingProtocol {
    /// The node on whose behalf the protocol runs.
    pub closed spec fn node_id(&self) -> NodeId {
        self.node_id
    }

    /// The identifiers met so far, each with the instant of the meeting.
    pub closed spec fn seen(&self) -> Map<u64, u64> {
        self.seen_messages.entries()
    }

    /// The hop limit that the protocol was set up with.
    pub closed spec fn max_ttl(&self) -> u32 {
        self.max_ttl
    }

    /// The counters.
    pub closed spec fn stats_view(&self) -> ProtocolStats {
        self.stats
    }

    /// A flooding protocol that has met nothing yet, with a hop limit of 64.
    pub fn new(node_id: NodeId) -> (p: FloodingProtocol)
        ensures
            p.node_id() == node_id,
            p.seen() == Map::<u64, u64>::empty(),
            p.max_ttl() == 64,
            p.stats_view() == ProtocolStats::zero(),
    {
        FloodingProtocol {
            node_id,
            seen_messages: SeenSet::new(),
            max_ttl: 64,
            stats: ProtocolStats::default(),
        }
    }

    /// The same protocol with another hop limit.
    pub fn with_ttl(self, ttl: u32) -> (p: FloodingProtocol)
        ensures
            p.max_ttl() == ttl,
            p.node_id() == self.node_id(),
            p.seen() == self.seen(),
            p.stats_view() == self.stats_view(),
    {
        let mut p = self;
        p.max_ttl = ttl;
        p
    }

    /// Handles `message` as received at the instant `now`.
    pub fn handle_message_at(&mut self, message: &Message, from_peer: &NodeId, now: u64) -> (r:
        Result<Vec<Message>, Error>)
        ensures
            r matches Ok(out) && views(out@) == forward_output(
                old(self).seen().dom().contains(message.id),
                message@,
                ProtocolType::Flooding,
            ),
            final(self).seen() == recorded(old(self).seen(), message.id, now),
            final(self).stats_view() == old(self).stats_view().after(
                message@.payload.len(),
                forward_output(
                    old(self).seen().dom().contains(message.id),
                    message@,
                    ProtocolType::Flooding,
                ).len(),
            ),
            final(self).node_id() == old(self).node_id(),
            final(self).max_ttl() == old(self).max_ttl(),
    {
        let out = forward(
            &mut self.seen_messages,
            &mut self.stats,
            message,
            now,
            ProtocolType::Flooding,
        );
        Ok(out)
    }

    /// Forgets the identifiers met 300 seconds or more before `now`. To be
    /// called every `SWEEP_INTERVAL_SECS` seconds.
    pub fn sweep(&mut self, now: u64)
        ensures
            final(self).seen() == fresh_entries(old(self).seen(), now),
            final(self).stats_view() == old(self).stats_view(),
            final(self).node_id() == old(self).node_id(),
            final(self).max_ttl() == old(self).max_ttl(),
    {
        self.seen_messages.sweep(now);
    }
}

/// What both forwarders promise of one call, whatever the clock read: the
/// answer, the identifiers remembered, and the counters.
pub open spec fn forwarder_step(
    seen: Map<u64, u64>,
    stats: ProtocolStats,
    m: MessageView,
    protocol: ProtocolType,
    seen_after: Map<u64, u64>,
    stats_after: ProtocolStats,
    outcome: Result<Seq<MessageView>, Error>,
) -> bool {
    let output = forward_output(seen.dom().contains(m.id), m, protocol);
    &&& outcome == Ok::<Seq<MessageView>, Error>(output)
    &&& seen_after.dom() == seen.dom().insert(m.id)
    &&& forall|id: u64| seen.dom().contains(id) ==> seen_after[id] == seen[id]
    &&& stats_after == stats.after(m.payload.len(), output.len())
}

impl MeshProtocol for FloodingProtocol {
    open spec fn tag(&self) -> ProtocolType {
        ProtocolType::Flooding
    }

    open spec fn counters(&self) -> ProtocolStats {
        self.stats_view()
    }

    open spec fn handles(
        &self,
        message: MessageView,
        from_peer: Seq<u8>,
        after: &Self,
        outcome: Result<Seq<MessageView>, Error>,
    ) -> bool {
        &&& forwarder_step(
            self.seen(),
            self.stats_view(),
            message,
            ProtocolType::Flooding,
            after.seen(),
            after.stats_view(),
            outcome,
        )
        &&& after.node_id() == self.node_id()
        &&& after.max_ttl() == self.max_ttl()
    }

    /// Handles `message` as received now, by the clock.
    fn handle_message(&mut self, message: &Message, from_peer: &NodeId) -> (r: Result<
        Vec<Message>,
        Error,
    >) {
        let now = unix_seconds();
        let r = self.handle_message_at(message, from_peer, now);
        assert(self.seen().dom() =~= old(self).seen().dom().insert(message.id));
        r
    }

    fn protocol_type(&self) -> (t: ProtocolType) {
        ProtocolType::Flooding
    }

    fn stats(&self) -> (s: ProtocolStats) {
        self.stats
    }
}


/// Gossip: every message not met before is passed on to a bounded number of
/// peers, over a small number of rounds.
pub struct GossipProtocol {
    node_id: NodeId,
    fanout: usize,
    rounds: usize,
    seen_messages: SeenSet,
    stats: ProtocolStats,
}

impl GossipProtocol {
    /// The node on whose behalf the protocol runs.
    pub closed spec fn node_id(&self) -> NodeId {
        self.node_id
    }

    /// The identifiers met so far, each with the instant of the meeting.
    pub closed spec fn seen(&self) -> Map<u64, u64> {
        self.seen_messages.entries()
    }

    /// How many peers a message is passed on to in one round.
    pub closed spec fn spec_fanout(&self) -> usize {
        self.fanout
    }

    /// How many rounds a message is passed on for.
    pub closed spec fn spec_rounds(&self) -> usize {
        self.rounds
    }

    /// The counters.
    pub closed spec fn stats_view(&self) -> ProtocolStats {
        self.stats
    }

    /// A gossip protocol that has met nothing yet, with a fanout of 3 over 3
    /// rounds.
    pub fn new(node_id: NodeId) -> (p: GossipProtocol)
        ensures
            p.node_id() == node_id,
            p.seen() == Map::<u64, u64>::empty(),
            p.spec_fanout() == 3,
            p.spec_rounds() == 3,
            p.stats_view() == ProtocolStats::zero(),
    {
        GossipProtocol {
            node_id,
            fanout: 3,
            rounds: 3,
            seen_messages: SeenSet::new(),
            stats: ProtocolStats::default(),
        }
    }

    /// The same protocol with another fanout.
    pub fn with_fanout(self, fanout: usize) -> (p: GossipProtocol)
        ensures
            p.spec_fanout() == fanout,
            p.spec_rounds() == self.spec_rounds(),
            p.node_id() == self.node_id(),
            p.seen() == self.seen(),
            p.stats_view() == self.stats_view(),
    {
        let mut p = self;
        p.fanout = fanout;
        p
    }

    /// The same protocol with another number of rounds.
    pub fn with_rounds(self, rounds: usize) -> (p: GossipProtocol)
        ensures
            p.spec_rounds() == rounds,
            p.spec_fanout() == self.spec_fanout(),
            p.node_id() == self.node_id(),
            p.seen() == self.seen(),
            p.stats_view() == self.stats_view(),
    {
        let mut p = self;
        p.rounds = rounds;
        p
    }

    /// How many peers a message is passed on to in one round.
    pub fn fanout(&self) -> (n: usize)
        ensures
            n == self.spec_fanout(),
    {
        self.fanout
    }

    /// How many rounds a message is passed on for.
    pub fn rounds(&self) -> (n: usize)
        ensures
            n == self.spec_rounds(),
    {
        self.rounds
    }

    /// Handles `message` as received at the instant `now`.
    pub fn handle_message_at(&mut self, message: &Message, from_peer: &NodeId, now: u64) -> (r:
        Result<Vec<Message>, Error>)
        ensures
            r matches Ok(out) && views(out@) == forward_output(
                old(self).seen().dom().contains(message.id),
                message@,
                ProtocolType::Gossip,
            ),
            final(self).seen() == recorded(old(self).seen(), message.id, now),
            final(self).stats_view() == old(self).stats_view().after(
                message@.payload.len(),
                forward_output(
                    old(self).seen().dom().contains(message.id),
                    message@,
                    ProtocolType::Gossip,
                ).len(),
            ),
            final(self).node_id() == old(self).node_id(),
            final(self).spec_fanout() == old(self).spec_fanout(),
            final(self).spec_rounds() == old(self).spec_rounds(),
    {
        let out = forward(
            &mut self.seen_messages,
            &mut self.stats,
            message,
            now,
            ProtocolType::Gossip,
        );
        Ok(out)
    }

    /// Forgets the identifiers met 300 seconds or more before `now`. To be
    /// called every `SWEEP_INTERVAL_SECS` seconds.
    pub fn sweep(&mut self, now: u64)
        ensures
            final(self).seen() == fresh_entries(old(self).seen(), now),
            final(self).stats_view() == old(self).stats_view(),
            final(self).node_id() == old(self).node_id(),
            final(self).spec_fanout() == old(self).spec_fanout(),
            final(self).spec_rounds() == old(self).spec_rounds(),
    {
        self.seen_messages.sweep(now);
    }
}

impl MeshProtocol for GossipProtocol {
    open spec fn tag(&self) -> ProtocolType {
        ProtocolType::Gossip
    }

    open spec fn counters(&self) -> ProtocolStats {
        self.stats_view()
    }

    open spec fn handles(
        &self,
        message: MessageView,
        from_peer: Seq<u8>,
        after: &Self,
        outcome: Result<Seq<MessageView>, Error>,
    ) -> bool {
        &&& forwarder_step(
            self.seen(),
            self.stats_view(),
            message,
            ProtocolType::Gossip,
            after.seen(),
            after.stats_view(),
            outcome,
        )
        &&& after.node_id() == self.node_id()
        &&& after.spec_fanout() == self.spec_fanout()
        &&& after.spec_rounds() == self.spec_rounds()
    }

    /// Handles `message` as received now, by the clock.
    fn handle_message(&mut self, message: &Message, from_peer: &NodeId) -> (r: Result<
        Vec<Message>,
        Error,
    >) {
        let now = unix_seconds();
        let r = self.handle_message_at(message, from_peer, now);
        assert(self.seen().dom() =~= old(self).seen().dom().insert(message.id));
        r
    }

    fn protocol_type(&self) -> (t: ProtocolType) {
        ProtocolType::Gossip
    }

    fn stats(&self) -> (s: ProtocolStats) {
        self.stats
    }
}


/// The name of a protocol tag.
pub open spec fn protocol_name(tag: ProtocolType) -> Seq<char> {
    match tag {
        ProtocolType::Flooding => "Flooding"@,
        ProtocolType::Gossip => "Gossip"@,
        ProtocolType::Consensus => "Consensus"@,
        ProtocolType::Direct => "Direct"@,
    }
}

/// The name of a protocol tag.
pub fn name_of(tag: ProtocolType) -> (name: &'static str)
    ensures
        name@ == protocol_name(tag),
{
    match tag {
        ProtocolType::Flooding => "Flooding",
        ProtocolType::Gossip => "Gossip",
        ProtocolType::Consensus => "Consensus",
        ProtocolType::Direct => "Direct",
    }
}

/// One of the protocols that the library provides.
pub enum Protocol {
    Flooding(FloodingProtocol),
    Gossip(GossipProtocol),
    Consensus(ConsensusProtocol),
}

impl MeshProtocol for Protocol {
    open spec fn tag(&self) -> ProtocolType {
        match self {
            Protocol::Flooding(p) => p.tag(),
            Protocol::Gossip(p) => p.tag(),
            Protocol::Consensus(p) => p.tag(),
        }
    }

    open spec fn counters(&self) -> ProtocolStats {
        match self {
            Protocol::Flooding(p) => p.counters(),
            Protocol::Gossip(p) => p.counters(),
            Protocol::Consensus(p) => p.counters(),
        }
    }

    open spec fn handles(
        &self,
        message: MessageView,
        from_peer: Seq<u8>,
        after: &Self,
        outcome: Result<Seq<MessageView>, Error>,
    ) -> bool {
        match (*self, *after) {
            (Protocol::Flooding(p), Protocol::Flooding(q)) => p.handles(
                message,
                from_peer,
                &q,
                outcome,
            ),
            (Protocol::Gossip(p), Protocol::Gossip(q)) => p.handles(message, from_peer, &q, outcome),
            (Protocol::Consensus(p), Protocol::Consensus(q)) => p.handles(
                message,
                from_peer,
                &q,
                outcome,
            ),
            _ => false,
        }
    }

    fn handle_message(&mut self, message: &Message, from_peer: &NodeId) -> (r: Result<
        Vec<Message>,
        Error,
    >) {
        match self {
            Protocol::Flooding(p) => p.handle_message(message, from_peer),
            Protocol::Gossip(p) => p.handle_message(message, from_peer),
            Protocol::Consensus(p) => p.handle_message(message, from_peer),
        }
    }

    fn protocol_type(&self) -> (t: ProtocolType) {
        match self {
            Protocol::Flooding(p) => p.protocol_type(),
            Protocol::Gossip(p) => p.protocol_type(),
            Protocol::Consensus(p) => p.protocol_type(),
        }
    }

    fn stats(&self) -> (s: ProtocolStats) {
        match self {
            Protocol::Flooding(p) => p.stats(),
            Protocol::Gossip(p) => p.stats(),
            Protocol::Consensus(p) => p.stats(),
        }
    }
}

/// No tag occurs twice among `protocols`.
pub open spec fn distinct_tags<P: MeshProtocol>(protocols: Seq<P>) -> bool {
    forall|i: int, j: int|
        0 <= i < j < protocols.len() ==> (#[trigger] protocols[i]).tag() != (
        #[trigger] protocols[j]).tag()
}

/// Some protocol among `protocols` has the tag `tag`.
pub open spec fn has_tag<P: MeshProtocol>(protocols: Seq<P>, tag: ProtocolType) -> bool {
    exists|i: int| 0 <= i < protocols.len() && (#[trigger] protocols[i]).tag() == tag
}

/// The position of the protocol with the tag `tag`, where there is one.
pub open spec fn tag_index<P: MeshProtocol>(protocols: Seq<P>, tag: ProtocolType) -> int {
    choose|i: int| 0 <= i < protocols.len() && (#[trigger] protocols[i]).tag() == tag
}

proof fn lemma_tag_index_unique<P: MeshProtocol>(protocols: Seq<P>, tag: ProtocolType, i: int)
    requires
        distinct_tags(protocols),
        0 <= i < protocols.len(),
        protocols[i].tag() == tag,
    ensures
        has_tag(protocols, tag),
        tag_index(protocols, tag) == i,
{
    let k = tag_index(protocols, tag);
    assert(0 <= k < protocols.len() && protocols[k].tag() == tag);
    if k < i {
        assert(protocols[k].tag() != protocols[i].tag());
    } else if i < k {
        assert(protocols[i].tag() != protocols[k].tag());
    }
}

/// The text of the error for a message whose tag no protocol handles.
pub open spec fn unknown_protocol(tag: ProtocolType) -> Seq<char> {
    "Unknown protocol: "@ + protocol_name(tag)
}

/// The protocols of a node, at most one per tag. An inbound message goes to
/// the protocol whose tag it carries.
pub struct ProtocolRegistry<P: MeshProtocol> {
    protocols: Vec<P>,
}

impl<P: MeshProtocol> ProtocolRegistry<P> {
    /// The registered protocols, in order of first registration of their
    /// tags.
    pub closed spec fn protocols(&self) -> Seq<P> {
        self.protocols@
    }

    #[verifier::type_invariant]
    spec fn tags_are_distinct(&self) -> bool {
        distinct_tags(self.protocols@)
    }

    /// Whether a protocol is registered for `tag`.
    pub open spec fn has(&self, tag: ProtocolType) -> bool {
        has_tag(self.protocols(), tag)
    }

    /// The protocol registered for `tag`, where there is one.
    pub open spec fn protocol_for(&self, tag: ProtocolType) -> P {
        self.protocols()[tag_index(self.protocols(), tag)]
    }

    /// A registry without protocols.
    pub fn new() -> (r: ProtocolRegistry<P>)
        ensures
            r.protocols() == Seq::<P>::empty(),
    {
        ProtocolRegistry { protocols: Vec::new() }
    }

    fn find(&self, tag: ProtocolType) -> (r: Option<usize>)
        ensures
            distinct_tags(self.protocols()),
            match r {
                Some(i) => self.has(tag) && i == tag_index(self.protocols(), tag) && i
                    < self.protocols().len() && self.protocols()[i as int].tag() == tag,
                None => !self.has(tag),
            },
    {
        proof {
            use_type_invariant(self);
        }
        let mut i: usize = 0;
        while i < self.protocols.len()
            invariant
                i <= self.protocols@.len(),
                distinct_tags(self.protocols@),
                forall|j: int| 0 <= j < i ==> (#[trigger] self.protocols@[j]).tag() != tag,
            decreases self.protocols@.len() - i,
        {
            if self.protocols[i].protocol_type() == tag {
                proof {
                    lemma_tag_index_unique(self.protocols@, tag, i as int);
                }
                return Some(i);
            }
            i += 1;
        }
        None
    }

    /// Registers `protocol` under its tag. A protocol registered earlier
    /// under that tag is replaced and keeps its place; a new tag goes to the
    /// end.
    pub fn register(&mut self, protocol: P)
        ensures
            distinct_tags(final(self).protocols()),
            final(self).has(protocol.tag()),
            final(self).protocol_for(protocol.tag()) == protocol,
            final(self).protocols() == (if old(self).has(protocol.tag()) {
                old(self).protocols().update(
                    tag_index(old(self).protocols(), protocol.tag()),
                    protocol,
                )
            } else {
                old(self).protocols().push(protocol)
            }),
    {
        let tag = protocol.protocol_type();
        let found = self.find(tag);
        let mut protocols: Vec<P> = Vec::new();
        std::mem::swap(&mut protocols, &mut self.protocols);
        protocols.push(protocol);
        match found {
            Some(i) => {
                let _ = protocols.swap_remove(i);
                proof {
                    lemma_tag_index_unique(protocols@, tag, i as int);
                }
            },
            None => {
                proof {
                    lemma_tag_index_unique(protocols@, tag, protocols@.len() - 1);
                }
            },
        }
        self.protocols = protocols;
    }

    /// Hands `message` to the protocol whose tag it carries. Where none is
    /// registered for that tag the call fails with `Protocol` and changes
    /// nothing; else that protocol alone handles the message, and its answer
    /// is the answer.
    pub fn handle_message(&mut self, message: &Message, from_peer: &NodeId) -> (r: Result<
        Vec<Message>,
        Error,
    >)
        ensures
            distinct_tags(final(self).protocols()),
            final(self).protocols().len() == old(self).protocols().len(),
            forall|tag: ProtocolType| final(self).has(tag) == old(self).has(tag),
            if old(self).has(message.protocol_type) {
                let i = tag_index(old(self).protocols(), message.protocol_type);
                &&& old(self).protocols()[i].handles(
                    message@,
                    from_peer@,
                    &final(self).protocols()[i],
                    outcome_view(r),
                )
                &&& forall|j: int|
                    0 <= j < old(self).protocols().len() && j != i ==> final(self).protocols()[j]
                        == old(self).protocols()[j]
            } else {
                &&& final(self).protocols() == old(self).protocols()
                &&& r matches Err(e)
                &&& e is Protocol
                &&& e.detail() == unknown_protocol(message.protocol_type)
            },
    {
        match self.find(message.protocol_type) {
            Some(i) => {
                let mut protocols: Vec<P> = Vec::new();
                std::mem::swap(&mut protocols, &mut self.protocols);
                let ghost before = protocols@;
                let mut protocol = protocols.remove(i);
                let r = protocol.handle_message(message, from_peer);
                protocols.insert(i, protocol);
                proof {
                    let after = protocols@;
                    assert(after.len() == before.len());
                    assert forall|j: int| 0 <= j < before.len() implies (#[trigger] after[j]).tag()
                        == before[j].tag() by {}
                    assert forall|tag: ProtocolType| has_tag(after, tag) == has_tag(
                        before,
                        tag,
                    ) by {
                        if has_tag(before, tag) {
                            let k = tag_index(before, tag);
                            assert(after[k].tag() == tag);
                        }
                        if has_tag(after, tag) {
                            let k = tag_index(after, tag);
                            assert(before[k].tag() == tag);
                        }
                    }
                }
                self.protocols = protocols;
                r
            },
            None => {
                let text = String::from_str("Unknown protocol: ").concat(
                    name_of(message.protocol_type),
                );
                Err(Error::Protocol(text))
            },
        }
    }

    /// The protocol registered for `protocol_type`, if any.
    pub fn get_protocol(&self, protocol_type: &ProtocolType) -> (r: Option<&P>)
        ensures
            match r {
                Some(p) => self.has(*protocol_type) && *p == self.protocol_for(*protocol_type)
                    && p.tag() == *protocol_type,
                None => !self.has(*protocol_type),
            },
    {
        match self.find(*protocol_type) {
            Some(i) => Some(&self.protocols[i]),
            None => None,
        }
    }

    /// The counters of the protocol registered for `protocol_type`, if any.
    pub fn get_stats(&self, protocol_type: &ProtocolType) -> (r: Option<ProtocolStats>)
        ensures
            r == (if self.has(*protocol_type) {
                Some(self.protocol_for(*protocol_type).counters())
            } else {
                None
            }),
    {
        match self.find(*protocol_type) {
            Some(i) => Some(self.protocols[i].stats()),
            None => None,
        }
    }

    /// The number of registered protocols.
    pub fn len(&self) -> (n: usize)
        ensures
            n == self.protocols().len(),
            distinct_tags(self.protocols()),
    {
        proof {
            use_type_invariant(self);
        }
        self.protocols.len()
    }
}


impl Protocol {
    /// Whether `after` is this protocol after a sweep at `now`: a forwarder
    /// has forgotten the identifiers that are no longer fresh and is
    /// otherwise the same; consensus, which remembers no identifiers, is
    /// untouched.
    pub open spec fn swept(&self, after: &Protocol, now: u64) -> bool {
        match (*self, *after) {
            (Protocol::Flooding(p), Protocol::Flooding(q)) => {
                &&& q.seen() == fresh_entries(p.seen(), now)
                &&& q.stats_view() == p.stats_view()
                &&& q.node_id() == p.node_id()
                &&& q.max_ttl() == p.max_ttl()
            },
            (Protocol::Gossip(p), Protocol::Gossip(q)) => {
                &&& q.seen() == fresh_entries(p.seen(), now)
                &&& q.stats_view() == p.stats_view()
                &&& q.node_id() == p.node_id()
                &&& q.spec_fanout() == p.spec_fanout()
                &&& q.spec_rounds() == p.spec_rounds()
            },
            (Protocol::Consensus(p), Protocol::Consensus(q)) => p == q,
            _ => false,
        }
    }

    /// Forgets the identifiers met 300 seconds or more before `now`.
    pub fn sweep(&mut self, now: u64)
        ensures
            old(self).swept(final(self), now),
            final(self).tag() == old(self).tag(),
    {
        match self {
            Protocol::Flooding(p) => {
                p.sweep(now);
            },
            Protocol::Gossip(p) => {
                p.sweep(now);
            },
            Protocol::Consensus(_) => {},
        }
    }
}

impl ProtocolRegistry<Protocol> {
    /// Sweeps the seen-set of every registered forwarder. To be called
    /// every `SWEEP_INTERVAL_SECS` seconds.
    pub fn sweep(&mut self, now: u64)
        ensures
            final(self).protocols().len() == old(self).protocols().len(),
            forall|i: int|
                0 <= i < old(self).protocols().len() ==> (#[trigger] old(self).protocols()[i]).swept(
                    &final(self).protocols()[i],
                    now,
                ),
            forall|tag: ProtocolType| final(self).has(tag) == old(self).has(tag),
    {
        let count = self.len();
        let mut protocols: Vec<Protocol> = Vec::new();
        std::mem::swap(&mut protocols, &mut self.protocols);
        let ghost before = protocols@;
        let mut i: usize = 0;
        while i < count
            invariant
                i <= count,
                count == before.len(),
                protocols@.len() == count,
                forall|k: int| i <= k < count ==> protocols@[k] == before[k],
                forall|k: int| 0 <= k < i ==> (#[trigger] before[k]).swept(&protocols@[k], now),
                forall|k: int| 0 <= k < count ==> (#[trigger] protocols@[k]).tag() == before[k].tag(),
            decreases count - i,
        {
            let mut protocol = protocols.remove(i);
            protocol.sweep(now);
            protocols.insert(i, protocol);
            i += 1;
        }
        proof {
            let after = protocols@;
            assert forall|tag: ProtocolType| has_tag(after, tag) == has_tag(before, tag) by {
                if has_tag(before, tag) {
                    let k = tag_index(before, tag);
                    assert(after[k].tag() == tag);
                }
                if has_tag(after, tag) {
                    let k = tag_index(after, tag);
                    assert(before[k].tag() == tag);
                }
            }
            assert forall|a: int, b: int| 0 <= a < b < after.len() implies (#[trigger] after[a]).tag()
                != (#[trigger] after[b]).tag() by {
                assert(before[a].tag() != before[b].tag());
            }
        }
        self.protocols = protocols;
    }
}

} // verus!
