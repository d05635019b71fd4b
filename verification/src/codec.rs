//! The wire format of a message and of a stream frame.
//!
//! A message is written field by field, in declaration order, with no
//! padding: integers little-endian at their full width, enumerations as a
//! 32-bit index, identifiers as their 32 bytes, an optional field as one tag
//! byte (0 or 1) followed by the value when the tag is 1, and a byte string
//! as its 64-bit length followed by the bytes. On a stream each message is
//! preceded by its length as four big-endian bytes.

use vstd::prelude::*;
use vstd::bytes::{
    lemma_auto_spec_u32_to_from_le_bytes, lemma_auto_spec_u64_to_from_le_bytes,
    spec_u32_from_le_bytes, spec_u32_to_le_bytes, spec_u64_from_le_bytes, spec_u64_to_le_bytes,
    u32_from_le_bytes, u32_to_le_bytes, u64_from_le_bytes, u64_to_le_bytes,
};
use vstd::slice::slice_subrange;
use crate::error::Error;
use crate::types::{Message, MessageType, MessageView, NodeId, ProtocolType};
use vstd::string::StringExecFns;

verus! {

/// Largest datagram that is decoded.
pub const MAX_DATAGRAM_LEN: usize = 65536;

/// Largest stream frame that is accepted: 16 MiB.
pub const MAX_FRAME_LEN: usize = 16777216;

/// The index that stands for a message kind on the wire.
pub open spec fn kind_index(kind: MessageType) -> u32 {
    match kind {
        MessageType::Data => 0,
        MessageType::Control => 1,
        MessageType::Discovery => 2,
        MessageType::Encrypted => 3,
        MessageType::Broadcast => 4,
        MessageType::Unicast => 5,
        MessageType::Multicast => 6,
    }
}

/// The message kind that an index stands for, if any.
pub open spec fn kind_at(index: u32) -> Option<MessageType> {
    if index == 0 {
        Some(MessageType::Data)
    } else if index == 1 {
        Some(MessageType::Control)
    } else if index == 2 {
        Some(MessageType::Discovery)
    } else if index == 3 {
        Some(MessageType::Encrypted)
    } else if index == 4 {
        Some(MessageType::Broadcast)
    } else if index == 5 {
        Some(MessageType::Unicast)
    } else if index == 6 {
        Some(MessageType::Multicast)
    } else {
        None
    }
}

/// The index that stands for a protocol tag on the wire.
pub open spec fn protocol_index(protocol: ProtocolType) -> u32 {
    match protocol {
        ProtocolType::Flooding => 0,
        ProtocolType::Gossip => 1,
        ProtocolType::Consensus => 2,
        ProtocolType::Direct => 3,
    }
}

/// The protocol tag that an index stands for, if any.
pub open spec fn protocol_at(index: u32) -> Option<ProtocolType> {
    if index == 0 {
        Some(ProtocolType::Flooding)
    } else if index == 1 {
        Some(ProtocolType::Gossip)
    } else if index == 2 {
        Some(ProtocolType::Consensus)
    } else if index == 3 {
        Some(ProtocolType::Direct)
    } else {
        None
    }
}

/// A byte string on the wire: its length, then its bytes.
pub open spec fn wire_blob(bytes: Seq<u8>) -> Seq<u8> {
    spec_u64_to_le_bytes(bytes.len() as u64) + bytes
}

/// An optional identifier on the wire.
pub open spec fn wire_optional_id(id: Option<Seq<u8>>) -> Seq<u8> {
    match id {
        None => seq![0u8],
        Some(bytes) => seq![1u8] + bytes,
    }
}

/// An optional byte string on the wire.
pub open spec fn wire_optional_blob(blob: Option<Seq<u8>>) -> Seq<u8> {
    match blob {
        None => seq![0u8],
        Some(bytes) => seq![1u8] + wire_blob(bytes),
    }
}

/// The views that have an encoding: identifiers of 32 bytes and byte strings
/// whose length fits in 64 bits. The view of every `Message` is one.
pub open spec fn encodable(m: MessageView) -> bool {
    &&& m.from.len() == 32
    &&& m.to matches Some(to) ==> to.len() == 32
    &&& m.payload.len() <= u64::MAX
    &&& m.signature matches Some(s) ==> s.len() <= u64::MAX
}

/// The encoding of a message.
pub open spec fn message_wire(m: MessageView) -> Seq<u8> {
    spec_u64_to_le_bytes(m.id) + (spec_u32_to_le_bytes(kind_index(m.message_type)) + (
    spec_u32_to_le_bytes(protocol_index(m.protocol_type)) + (m.from + (wire_optional_id(m.to) + (
    wire_blob(m.payload) + (spec_u64_to_le_bytes(m.timestamp) + (spec_u32_to_le_bytes(m.ttl) + (
    spec_u32_to_le_bytes(m.hops) + wire_optional_blob(m.signature)))))))))
}

/// The first `n` bytes of `bytes` and what follows them, if there are that
/// many.
pub open spec fn split(bytes: Seq<u8>, n: int) -> Option<(Seq<u8>, Seq<u8>)> {
    if 0 <= n <= bytes.len() {
        Some((bytes.subrange(0, n), bytes.subrange(n, bytes.len() as int)))
    } else {
        None
    }
}

/// Reads a 32-bit integer off the front of `bytes`.
pub open spec fn parse_u32(bytes: Seq<u8>) -> Option<(u32, Seq<u8>)> {
    match split(bytes, 4) {
        Some((head, rest)) => Some((spec_u32_from_le_bytes(head), rest)),
        None => None,
    }
}

/// Reads a 64-bit integer off the front of `bytes`.
pub open spec fn parse_u64(bytes: Seq<u8>) -> Option<(u64, Seq<u8>)> {
    match split(bytes, 8) {
        Some((head, rest)) => Some((spec_u64_from_le_bytes(head), rest)),
        None => None,
    }
}

/// Reads a message kind off the front of `bytes`.
pub open spec fn parse_kind(bytes: Seq<u8>) -> Option<(MessageType, Seq<u8>)> {
    match parse_u32(bytes) {
        Some((index, rest)) => match kind_at(index) {
            Some(kind) => Some((kind, rest)),
            None => None,
        },
        None => None,
    }
}

/// Reads a protocol tag off the front of `bytes`.
pub open spec fn parse_protocol(bytes: Seq<u8>) -> Option<(ProtocolType, Seq<u8>)> {
    match parse_u32(bytes) {
        Some((index, rest)) => match protocol_at(index) {
            Some(protocol) => Some((protocol, rest)),
            None => None,
        },
        None => None,
    }
}

/// Reads a byte string off the front of `bytes`.
pub open spec fn parse_blob(bytes: Seq<u8>) -> Option<(Seq<u8>, Seq<u8>)> {
    match parse_u64(bytes) {
        Some((len, rest)) => split(rest, len as int),
        None => None,
    }
}

/// Reads an optional identifier off the front of `bytes`.
pub open spec fn parse_optional_id(bytes: Seq<u8>) -> Option<(Option<Seq<u8>>, Seq<u8>)> {
    match split(bytes, 1) {
        Some((tag, rest)) => if tag[0] == 0 {
            Some((None, rest))
        } else if tag[0] == 1 {
            match split(rest, 32) {
                Some((id, after)) => Some((Some(id), after)),
                None => None,
            }
        } else {
            None
        },
        None => None,
    }
}

/// Reads an optional byte string off the front of `bytes`.
pub open spec fn parse_optional_blob(bytes: Seq<u8>) -> Option<(Option<Seq<u8>>, Seq<u8>)> {
    match split(bytes, 1) {
        Some((tag, rest)) => if tag[0] == 0 {
            Some((None, rest))
        } else if tag[0] == 1 {
            match parse_blob(rest) {
                Some((blob, after)) => Some((Some(blob), after)),
                None => None,
            }
        } else {
            None
        },
        None => None,
    }
}

/// Reads the fields that precede the payload.
pub open spec fn parse_header(bytes: Seq<u8>) -> Option<(MessageView, Seq<u8>)> {
    match parse_u64(bytes) {
        Some((id, r1)) => match parse_kind(r1) {
            Some((message_type, r2)) => match parse_protocol(r2) {
                Some((protocol_type, r3)) => match split(r3, 32) {
                    Some((from, r4)) => match parse_optional_id(r4) {
                        Some((to, r5)) => Some(
                            (
                                MessageView {
                                    id,
                                    message_type,
                                    protocol_type,
                                    from,
                                    to,
                                    payload: Seq::empty(),
                                    timestamp: 0,
                                    ttl: 0,
                                    hops: 0,
                                    signature: None,
                                },
                                r5,
                            ),
                        ),
                        None => None,
                    },
                    None => None,
                },
                None => None,
            },
            None => None,
        },
        None => None,
    }
}

/// Reads a whole message: the header, then the payload and the fields after
/// it, with nothing left over.
pub open spec fn parse_message(bytes: Seq<u8>) -> Option<MessageView> {
    match parse_header(bytes) {
        Some((head, r5)) => match parse_blob(r5) {
            Some((payload, r6)) => match parse_u64(r6) {
                Some((timestamp, r7)) => match parse_u32(r7) {
                    Some((ttl, r8)) => match parse_u32(r8) {
                        Some((hops, r9)) => match parse_optional_blob(r9) {
                            Some((signature, r10)) => if r10.len() == 0 {
                                Some(MessageView { payload, timestamp, ttl, hops, signature, ..head })
                            } else {
                                None
                            },
                            None => None,
                        },
                        None => None,
                    },
                    None => None,
                },
                None => None,
            },
            None => None,
        },
        None => None,
    }
}


proof fn lemma_split_concat(head: Seq<u8>, rest: Seq<u8>)
    ensures
        split(head + rest, head.len() as int) == Some((head, rest)),
{
    let all = head + rest;
    assert(all.subrange(0, head.len() as int) =~= head);
    assert(all.subrange(head.len() as int, all.len() as int) =~= rest);
}

proof fn lemma_split_rejoin(bytes: Seq<u8>, n: int)
    requires
        split(bytes, n) is Some,
    ensures
        bytes == split(bytes, n).unwrap().0 + split(bytes, n).unwrap().1,
        split(bytes, n).unwrap().0.len() == n,
{
    assert(bytes =~= bytes.subrange(0, n) + bytes.subrange(n, bytes.len() as int));
}

proof fn lemma_u32_forward(x: u32, rest: Seq<u8>)
    ensures
        parse_u32(spec_u32_to_le_bytes(x) + rest) == Some((x, rest)),
{
    lemma_auto_spec_u32_to_from_le_bytes();
    lemma_split_concat(spec_u32_to_le_bytes(x), rest);
}

proof fn lemma_u32_backward(bytes: Seq<u8>)
    requires
        parse_u32(bytes) is Some,
    ensures
        bytes == spec_u32_to_le_bytes(parse_u32(bytes).unwrap().0) + parse_u32(bytes).unwrap().1,
{
    lemma_auto_spec_u32_to_from_le_bytes();
    lemma_split_rejoin(bytes, 4);
    let head = split(bytes, 4).unwrap().0;
    assert(spec_u32_to_le_bytes(spec_u32_from_le_bytes(head)) == head);
}

proof fn lemma_u64_forward(x: u64, rest: Seq<u8>)
    ensures
        parse_u64(spec_u64_to_le_bytes(x) + rest) == Some((x, rest)),
{
    lemma_auto_spec_u64_to_from_le_bytes();
    lemma_split_concat(spec_u64_to_le_bytes(x), rest);
}

proof fn lemma_u64_backward(bytes: Seq<u8>)
    requires
        parse_u64(bytes) is Some,
    ensures
        bytes == spec_u64_to_le_bytes(parse_u64(bytes).unwrap().0) + parse_u64(bytes).unwrap().1,
{
    lemma_auto_spec_u64_to_from_le_bytes();
    lemma_split_rejoin(bytes, 8);
    let head = split(bytes, 8).unwrap().0;
    assert(spec_u64_to_le_bytes(spec_u64_from_le_bytes(head)) == head);
}

proof fn lemma_kind_forward(kind: MessageType, rest: Seq<u8>)
    ensures
        parse_kind(spec_u32_to_le_bytes(kind_index(kind)) + rest) == Some((kind, rest)),
{
    lemma_u32_forward(kind_index(kind), rest);
}

proof fn lemma_kind_backward(bytes: Seq<u8>)
    requires
        parse_kind(bytes) is Some,
    ensures
        bytes == spec_u32_to_le_bytes(kind_index(parse_kind(bytes).unwrap().0)) + parse_kind(
            bytes,
        ).unwrap().1,
{
    lemma_u32_backward(bytes);
}

proof fn lemma_protocol_forward(protocol: ProtocolType, rest: Seq<u8>)
    ensures
        parse_protocol(spec_u32_to_le_bytes(protocol_index(protocol)) + rest) == Some(
            (protocol, rest),
        ),
{
    lemma_u32_forward(protocol_index(protocol), rest);
}

proof fn lemma_protocol_backward(bytes: Seq<u8>)
    requires
        parse_protocol(bytes) is Some,
    ensures
        bytes == spec_u32_to_le_bytes(protocol_index(parse_protocol(bytes).unwrap().0))
            + parse_protocol(bytes).unwrap().1,
{
    lemma_u32_backward(bytes);
}

proof fn lemma_blob_forward(blob: Seq<u8>, rest: Seq<u8>)
    requires
        blob.len() <= u64::MAX,
    ensures
        parse_blob(wire_blob(blob) + rest) == Some((blob, rest)),
{
    let len = blob.len() as u64;
    assert(wire_blob(blob) + rest =~= spec_u64_to_le_bytes(len) + (blob + rest));
    lemma_u64_forward(len, blob + rest);
    lemma_split_concat(blob, rest);
}

proof fn lemma_blob_backward(bytes: Seq<u8>)
    requires
        parse_blob(bytes) is Some,
    ensures
        bytes == wire_blob(parse_blob(bytes).unwrap().0) + parse_blob(bytes).unwrap().1,
        parse_blob(bytes).unwrap().0.len() <= u64::MAX,
{
    lemma_u64_backward(bytes);
    let (len, rest) = parse_u64(bytes).unwrap();
    lemma_split_rejoin(rest, len as int);
    let (blob, after) = split(rest, len as int).unwrap();
    assert(bytes =~= (spec_u64_to_le_bytes(len) + blob) + after);
}

proof fn lemma_optional_id_forward(id: Option<Seq<u8>>, rest: Seq<u8>)
    requires
        id matches Some(bytes) ==> bytes.len() == 32,
    ensures
        parse_optional_id(wire_optional_id(id) + rest) == Some((id, rest)),
{
    match id {
        None => {
            lemma_split_concat(seq![0u8], rest);
        },
        Some(bytes) => {
            assert(wire_optional_id(id) + rest =~= seq![1u8] + (bytes + rest));
            lemma_split_concat(seq![1u8], bytes + rest);
            lemma_split_concat(bytes, rest);
        },
    }
}

proof fn lemma_optional_id_backward(bytes: Seq<u8>)
    requires
        parse_optional_id(bytes) is Some,
    ensures
        bytes == wire_optional_id(parse_optional_id(bytes).unwrap().0) + parse_optional_id(
            bytes,
        ).unwrap().1,
        parse_optional_id(bytes).unwrap().0 matches Some(id) ==> id.len() == 32,
{
    lemma_split_rejoin(bytes, 1);
    let (tag, rest) = split(bytes, 1).unwrap();
    if tag[0] == 0 {
        assert(tag =~= seq![0u8]);
    } else {
        assert(tag =~= seq![1u8]);
        lemma_split_rejoin(rest, 32);
        let (id, after) = split(rest, 32).unwrap();
        assert(bytes =~= (seq![1u8] + id) + after);
    }
}

proof fn lemma_optional_blob_forward(blob: Option<Seq<u8>>, rest: Seq<u8>)
    requires
        blob matches Some(bytes) ==> bytes.len() <= u64::MAX,
    ensures
        parse_optional_blob(wire_optional_blob(blob) + rest) == Some((blob, rest)),
{
    match blob {
        None => {
            lemma_split_concat(seq![0u8], rest);
        },
        Some(bytes) => {
            assert(wire_optional_blob(blob) + rest =~= seq![1u8] + (wire_blob(bytes) + rest));
            lemma_split_concat(seq![1u8], wire_blob(bytes) + rest);
            lemma_blob_forward(bytes, rest);
        },
    }
}

proof fn lemma_optional_blob_backward(bytes: Seq<u8>)
    requires
        parse_optional_blob(bytes) is Some,
    ensures
        bytes == wire_optional_blob(parse_optional_blob(bytes).unwrap().0) + parse_optional_blob(
            bytes,
        ).unwrap().1,
        parse_optional_blob(bytes).unwrap().0 matches Some(blob) ==> blob.len() <= u64::MAX,
{
    lemma_split_rejoin(bytes, 1);
    let (tag, rest) = split(bytes, 1).unwrap();
    if tag[0] == 0 {
        assert(tag =~= seq![0u8]);
    } else {
        assert(tag =~= seq![1u8]);
        lemma_blob_backward(rest);
        let (blob, after) = parse_blob(rest).unwrap();
        assert(bytes =~= (seq![1u8] + wire_blob(blob)) + after);
    }
}

/// Parsing the encoding of a message gives the message back.
pub proof fn lemma_parse_inverts_wire(m: MessageView)
    requires
        encodable(m),
    ensures
        parse_message(message_wire(m)) == Some(m),
{
    let w10 = wire_optional_blob(m.signature);
    let w9 = spec_u32_to_le_bytes(m.hops) + w10;
    let w8 = spec_u32_to_le_bytes(m.ttl) + w9;
    let w7 = spec_u64_to_le_bytes(m.timestamp) + w8;
    let w6 = wire_blob(m.payload) + w7;
    let w5 = wire_optional_id(m.to) + w6;
    let w4 = m.from + w5;
    let w3 = spec_u32_to_le_bytes(protocol_index(m.protocol_type)) + w4;
    let w2 = spec_u32_to_le_bytes(kind_index(m.message_type)) + w3;
    lemma_u64_forward(m.id, w2);
    lemma_kind_forward(m.message_type, w3);
    lemma_protocol_forward(m.protocol_type, w4);
    lemma_split_concat(m.from, w5);
    lemma_optional_id_forward(m.to, w6);
    lemma_blob_forward(m.payload, w7);
    lemma_u64_forward(m.timestamp, w8);
    lemma_u32_forward(m.ttl, w9);
    lemma_u32_forward(m.hops, w10);
    assert(w10 =~= w10 + Seq::<u8>::empty());
    lemma_optional_blob_forward(m.signature, Seq::<u8>::empty());
    assert(parse_header(message_wire(m)) is Some);
    assert(parse_header(message_wire(m)).unwrap().1 == w6);
}

/// Whatever parses as a message is the encoding of that message.
pub proof fn lemma_wire_inverts_parse(bytes: Seq<u8>)
    requires
        parse_message(bytes) is Some,
    ensures
        encodable(parse_message(bytes).unwrap()),
        message_wire(parse_message(bytes).unwrap()) == bytes,
{
    lemma_u64_backward(bytes);
    let r1 = parse_u64(bytes).unwrap().1;
    lemma_kind_backward(r1);
    let r2 = parse_kind(r1).unwrap().1;
    lemma_protocol_backward(r2);
    let r3 = parse_protocol(r2).unwrap().1;
    lemma_split_rejoin(r3, 32);
    let r4 = split(r3, 32).unwrap().1;
    lemma_optional_id_backward(r4);
    let r5 = parse_optional_id(r4).unwrap().1;
    assert(parse_header(bytes).unwrap().1 == r5);
    lemma_blob_backward(r5);
    let r6 = parse_blob(r5).unwrap().1;
    lemma_u64_backward(r6);
    let r7 = parse_u64(r6).unwrap().1;
    lemma_u32_backward(r7);
    let r8 = parse_u32(r7).unwrap().1;
    lemma_u32_backward(r8);
    let r9 = parse_u32(r8).unwrap().1;
    lemma_optional_blob_backward(r9);
    let r10 = parse_optional_blob(r9).unwrap().1;
    assert(r10 =~= Seq::<u8>::empty());
    let w10 = wire_optional_blob(parse_optional_blob(r9).unwrap().0);
    assert(w10 + r10 =~= w10);
}

/// Two messages with the same encoding are the same message.
pub proof fn lemma_wire_injective(a: MessageView, b: MessageView)
    requires
        encodable(a),
        encodable(b),
        message_wire(a) == message_wire(b),
    ensures
        a == b,
{
    lemma_parse_inverts_wire(a);
    lemma_parse_inverts_wire(b);
}


/// Appends `src` to `out`.
pub fn append_bytes(out: &mut Vec<u8>, src: &[u8])
    ensures
        final(out)@ == old(out)@ + src@,
{
    let mut i: usize = 0;
    while i < src.len()
        invariant
            i <= src@.len(),
            out@ == old(out)@ + src@.subrange(0, i as int),
        decreases src@.len() - i,
    {
        out.push(src[i]);
        assert(out@ =~= old(out)@ + src@.subrange(0, i + 1));
        i += 1;
    }
    assert(src@.subrange(0, src@.len() as int) =~= src@);
}

fn kind_code(kind: MessageType) -> (index: u32)
    ensures
        index == kind_index(kind),
{
    match kind {
        MessageType::Data => 0,
        MessageType::Control => 1,
        MessageType::Discovery => 2,
        MessageType::Encrypted => 3,
        MessageType::Broadcast => 4,
        MessageType::Unicast => 5,
        MessageType::Multicast => 6,
    }
}

fn kind_from_code(index: u32) -> (kind: Option<MessageType>)
    ensures
        kind == kind_at(index),
{
    if index == 0 {
        Some(MessageType::Data)
    } else if index == 1 {
        Some(MessageType::Control)
    } else if index == 2 {
        Some(MessageType::Discovery)
    } else if index == 3 {
        Some(MessageType::Encrypted)
    } else if index == 4 {
        Some(MessageType::Broadcast)
    } else if index == 5 {
        Some(MessageType::Unicast)
    } else if index == 6 {
        Some(MessageType::Multicast)
    } else {
        None
    }
}

fn protocol_code(protocol: ProtocolType) -> (index: u32)
    ensures
        index == protocol_index(protocol),
{
    match protocol {
        ProtocolType::Flooding => 0,
        ProtocolType::Gossip => 1,
        ProtocolType::Consensus => 2,
        ProtocolType::Direct => 3,
    }
}

fn protocol_from_code(index: u32) -> (protocol: Option<ProtocolType>)
    ensures
        protocol == protocol_at(index),
{
    if index == 0 {
        Some(ProtocolType::Flooding)
    } else if index == 1 {
        Some(ProtocolType::Gossip)
    } else if index == 2 {
        Some(ProtocolType::Consensus)
    } else if index == 3 {
        Some(ProtocolType::Direct)
    } else {
        None
    }
}

fn put_blob(out: &mut Vec<u8>, blob: &Vec<u8>)
    ensures
        final(out)@ == old(out)@ + wire_blob(blob@),
        blob@.len() <= u64::MAX,
{
    let len = u64_to_le_bytes(blob.len() as u64);
    append_bytes(out, len.as_slice());
    append_bytes(out, blob.as_slice());
    assert(out@ =~= old(out)@ + wire_blob(blob@));
}

proof fn lemma_chain5(o: Seq<u8>, a: Seq<u8>, b: Seq<u8>, c: Seq<u8>, d: Seq<u8>, e: Seq<u8>)
    ensures
        ((((o + a) + b) + c) + d) + e == o + (a + (b + (c + (d + e)))),
{
    assert(((((o + a) + b) + c) + d) + e =~= o + (a + (b + (c + (d + e)))));
}

proof fn lemma_chain5_tail(a: Seq<u8>, b: Seq<u8>, c: Seq<u8>, d: Seq<u8>, e: Seq<u8>, t: Seq<u8>)
    ensures
        (a + (b + (c + (d + e)))) + t == a + (b + (c + (d + (e + t)))),
{
    assert((a + (b + (c + (d + e)))) + t =~= a + (b + (c + (d + (e + t)))));
}

/// The encoding of the fields that precede the payload.
pub open spec fn header_wire(m: MessageView) -> Seq<u8> {
    spec_u64_to_le_bytes(m.id) + (spec_u32_to_le_bytes(kind_index(m.message_type)) + (
    spec_u32_to_le_bytes(protocol_index(m.protocol_type)) + (m.from + wire_optional_id(m.to))))
}

/// The encoding of the payload and of the fields that follow it.
pub open spec fn body_wire(m: MessageView) -> Seq<u8> {
    wire_blob(m.payload) + (spec_u64_to_le_bytes(m.timestamp) + (spec_u32_to_le_bytes(m.ttl) + (
    spec_u32_to_le_bytes(m.hops) + wire_optional_blob(m.signature))))
}

/// A message's encoding is its header followed by its body.
pub proof fn lemma_wire_is_header_then_body(m: MessageView)
    ensures
        message_wire(m) == header_wire(m) + body_wire(m),
{
    lemma_chain5_tail(
        spec_u64_to_le_bytes(m.id),
        spec_u32_to_le_bytes(kind_index(m.message_type)),
        spec_u32_to_le_bytes(protocol_index(m.protocol_type)),
        m.from,
        wire_optional_id(m.to),
        body_wire(m),
    );
}

fn put_header(out: &mut Vec<u8>, m: &Message)
    ensures
        final(out)@ == old(out)@ + header_wire(m@),
        m@.from.len() == 32,
        m@.to matches Some(to) ==> to.len() == 32,
{
    broadcast use vstd::array::array_len_matches_n;

    let id = u64_to_le_bytes(m.id);
    append_bytes(out, id.as_slice());
    let kind = u32_to_le_bytes(kind_code(m.message_type));
    append_bytes(out, kind.as_slice());
    let protocol = u32_to_le_bytes(protocol_code(m.protocol_type));
    append_bytes(out, protocol.as_slice());
    append_bytes(out, m.from.as_bytes().as_slice());
    let ghost before = out@;
    match &m.to {
        None => {
            out.push(0u8);
            assert(out@ =~= before + wire_optional_id(m@.to));
        },
        Some(to) => {
            out.push(1u8);
            append_bytes(out, to.as_bytes().as_slice());
            assert(out@ =~= before + wire_optional_id(m@.to));
        },
    }
    proof {
        lemma_chain5(
            old(out)@,
            spec_u64_to_le_bytes(m.id),
            spec_u32_to_le_bytes(kind_index(m.message_type)),
            spec_u32_to_le_bytes(protocol_index(m.protocol_type)),
            m@.from,
            wire_optional_id(m@.to),
        );
    }
}

fn put_body(out: &mut Vec<u8>, m: &Message)
    ensures
        final(out)@ == old(out)@ + body_wire(m@),
        m@.payload.len() <= u64::MAX,
        m@.signature matches Some(s) ==> s.len() <= u64::MAX,
{
    put_blob(out, &m.payload);
    let timestamp = u64_to_le_bytes(m.timestamp);
    append_bytes(out, timestamp.as_slice());
    let ttl = u32_to_le_bytes(m.ttl);
    append_bytes(out, ttl.as_slice());
    let hops = u32_to_le_bytes(m.hops);
    append_bytes(out, hops.as_slice());
    let ghost before = out@;
    match &m.signature {
        None => {
            out.push(0u8);
            assert(out@ =~= before + wire_optional_blob(m@.signature));
        },
        Some(s) => {
            out.push(1u8);
            put_blob(out, s);
            assert(out@ =~= before + wire_optional_blob(m@.signature));
        },
    }
    proof {
        lemma_chain5(
            old(out)@,
            wire_blob(m@.payload),
            spec_u64_to_le_bytes(m.timestamp),
            spec_u32_to_le_bytes(m.ttl),
            spec_u32_to_le_bytes(m.hops),
            wire_optional_blob(m@.signature),
        );
    }
}

/// Encodes a message for the wire.
pub fn encode_message(m: &Message) -> (out: Vec<u8>)
    ensures
        out@ == message_wire(m@),
        encodable(m@),
        parse_message(out@) == Some(m@),
{
    let mut out: Vec<u8> = Vec::new();
    put_header(&mut out, m);
    put_body(&mut out, m);
    proof {
        assert(out@ =~= header_wire(m@) + body_wire(m@));
        lemma_wire_is_header_then_body(m@);
        lemma_parse_inverts_wire(m@);
    }
    out
}

/// What is left of `bytes` from position `pos` on.
pub open spec fn tail(bytes: Seq<u8>, pos: int) -> Seq<u8> {
    bytes.subrange(pos, bytes.len() as int)
}

fn take<'a>(bytes: &'a [u8], pos: usize, n: usize) -> (r: Option<(&'a [u8], usize)>)
    requires
        pos <= bytes@.len(),
    ensures
        match r {
            Some((head, next)) => next <= bytes@.len() && split(tail(bytes@, pos as int), n as int)
                == Some((head@, tail(bytes@, next as int))),
            None => split(tail(bytes@, pos as int), n as int) is None,
        },
{
    if n <= bytes.len() - pos {
        let head = slice_subrange(bytes, pos, pos + n);
        assert(head@ =~= tail(bytes@, pos as int).subrange(0, n as int));
        assert(tail(bytes@, pos + n) =~= tail(bytes@, pos as int).subrange(
            n as int,
            tail(bytes@, pos as int).len() as int,
        ));
        Some((head, pos + n))
    } else {
        None
    }
}

fn take_u32(bytes: &[u8], pos: usize) -> (r: Option<(u32, usize)>)
    requires
        pos <= bytes@.len(),
    ensures
        match r {
            Some((x, next)) => next <= bytes@.len() && parse_u32(tail(bytes@, pos as int)) == Some(
                (x, tail(bytes@, next as int)),
            ),
            None => parse_u32(tail(bytes@, pos as int)) is None,
        },
{
    match take(bytes, pos, 4) {
        Some((head, next)) => Some((u32_from_le_bytes(head), next)),
        None => None,
    }
}

fn take_u64(bytes: &[u8], pos: usize) -> (r: Option<(u64, usize)>)
    requires
        pos <= bytes@.len(),
    ensures
        match r {
            Some((x, next)) => next <= bytes@.len() && parse_u64(tail(bytes@, pos as int)) == Some(
                (x, tail(bytes@, next as int)),
            ),
            None => parse_u64(tail(bytes@, pos as int)) is None,
        },
{
    match take(bytes, pos, 8) {
        Some((head, next)) => Some((u64_from_le_bytes(head), next)),
        None => None,
    }
}

fn take_id(bytes: &[u8], pos: usize) -> (r: Option<(NodeId, usize)>)
    requires
        pos <= bytes@.len(),
    ensures
        match r {
            Some((id, next)) => next <= bytes@.len() && split(tail(bytes@, pos as int), 32) == Some(
                (id@, tail(bytes@, next as int)),
            ),
            None => split(tail(bytes@, pos as int), 32) is None,
        },
{
    match take(bytes, pos, 32) {
        Some((head, next)) => {
            let mut arr = [0u8; 32];
            let mut i: usize = 0;
            while i < 32
                invariant
                    i <= 32,
                    head@.len() == 32,
                    forall|j: int| 0 <= j < i ==> arr[j] == head@[j],
                decreases 32 - i,
            {
                arr[i] = head[i];
                i += 1;
            }
            assert(arr@ =~= head@);
            Some((NodeId(arr), next))
        },
        None => None,
    }
}

fn take_blob(bytes: &[u8], pos: usize) -> (r: Option<(Vec<u8>, usize)>)
    requires
        pos <= bytes@.len(),
    ensures
        match r {
            Some((blob, next)) => next <= bytes@.len() && parse_blob(tail(bytes@, pos as int))
                == Some((blob@, tail(bytes@, next as int))),
            None => parse_blob(tail(bytes@, pos as int)) is None,
        },
{
    match take_u64(bytes, pos) {
        Some((len, after)) => {
            if len > (bytes.len() - after) as u64 {
                return None;
            }
            match take(bytes, after, len as usize) {
                Some((head, next)) => Some((vstd::slice::slice_to_vec(head), next)),
                None => None,
            }
        },
        None => None,
    }
}

fn take_tag(bytes: &[u8], pos: usize) -> (r: Option<(u8, usize)>)
    requires
        pos <= bytes@.len(),
    ensures
        match r {
            Some((tag, next)) => next <= bytes@.len() && split(tail(bytes@, pos as int), 1) is Some
                && split(tail(bytes@, pos as int), 1).unwrap().0[0] == tag && split(
                tail(bytes@, pos as int),
                1,
            ).unwrap().1 == tail(bytes@, next as int),
            None => split(tail(bytes@, pos as int), 1) is None,
        },
{
    match take(bytes, pos, 1) {
        Some((head, next)) => Some((head[0], next)),
        None => None,
    }
}

/// The error for bytes that are no encoding, with `what` as its account.
fn malformed(what: &str) -> (e: Error)
    ensures
        e is Serialization,
        e.detail() == what@,
{
    Error::Serialization(String::from_str(what))
}

/// Decodes a message from exactly `bytes`. It succeeds on the encoding of a
/// message and on nothing else: truncated input, an unknown kind or protocol
/// index, a tag byte other than 0 or 1, a length that runs past the end and
/// trailing bytes are each refused with `Serialization`.
pub fn decode_message(bytes: &[u8]) -> (r: Result<Message, Error>)
    ensures
        match r {
            Ok(m) => parse_message(bytes@) == Some(m@) && message_wire(m@) == bytes@,
            Err(e) => parse_message(bytes@) is None && e is Serialization,
        },
{
    assert(tail(bytes@, 0) =~= bytes@);
    let (id, after_id) = match take_u64(bytes, 0) {
        Some(x) => x,
        None => { return Err(malformed("truncated message")); },
    };
    let (kind_code, after_kind) = match take_u32(bytes, after_id) {
        Some(x) => x,
        None => { return Err(malformed("truncated message")); },
    };
    let message_type = match kind_from_code(kind_code) {
        Some(k) => k,
        None => { return Err(malformed("unknown message kind")); },
    };
    let (protocol_code, after_protocol) = match take_u32(bytes, after_kind) {
        Some(x) => x,
        None => { return Err(malformed("truncated message")); },
    };
    let protocol_type = match protocol_from_code(protocol_code) {
        Some(p) => p,
        None => { return Err(malformed("unknown protocol")); },
    };
    let (from, after_from) = match take_id(bytes, after_protocol) {
        Some(x) => x,
        None => { return Err(malformed("truncated message")); },
    };
    let (to_tag, after_to_tag) = match take_tag(bytes, after_from) {
        Some(x) => x,
        None => { return Err(malformed("truncated message")); },
    };
    let (to, after_to) = if to_tag == 0 {
        (None, after_to_tag)
    } else if to_tag == 1 {
        match take_id(bytes, after_to_tag) {
            Some((id, next)) => (Some(id), next),
            None => { return Err(malformed("truncated message")); },
        }
    } else {
        return Err(malformed("invalid option tag"));
    };
    assert(parse_header(bytes@) is Some);
    assert(parse_header(bytes@).unwrap().1 == tail(bytes@, after_to as int));
    let (payload, after_payload) = match take_blob(bytes, after_to) {
        Some(x) => x,
        None => { return Err(malformed("truncated message")); },
    };
    let (timestamp, after_timestamp) = match take_u64(bytes, after_payload) {
        Some(x) => x,
        None => { return Err(malformed("truncated message")); },
    };
    let (ttl, after_ttl) = match take_u32(bytes, after_timestamp) {
        Some(x) => x,
        None => { return Err(malformed("truncated message")); },
    };
    let (hops, after_hops) = match take_u32(bytes, after_ttl) {
        Some(x) => x,
        None => { return Err(malformed("truncated message")); },
    };
    let (sig_tag, after_sig_tag) = match take_tag(bytes, after_hops) {
        Some(x) => x,
        None => { return Err(malformed("truncated message")); },
    };
    let (signature, end) = if sig_tag == 0 {
        (None, after_sig_tag)
    } else if sig_tag == 1 {
        match take_blob(bytes, after_sig_tag) {
            Some((blob, next)) => (Some(blob), next),
            None => { return Err(malformed("truncated message")); },
        }
    } else {
        return Err(malformed("invalid option tag"));
    };
    if end != bytes.len() {
        return Err(malformed("trailing bytes"));
    }
    let m = Message {
        id,
        message_type,
        protocol_type,
        from,
        to,
        payload,
        timestamp,
        ttl,
        hops,
        signature,
    };
    proof {
        assert(parse_message(bytes@) == Some(m@));
        lemma_wire_inverts_parse(bytes@);
    }
    Ok(m)
}


/// The four bytes that announce a frame of `len` bytes: `len` in big-endian
/// order.
pub open spec fn frame_prefix(len: u32) -> Seq<u8> {
    let le = spec_u32_to_le_bytes(len);
    seq![le[3], le[2], le[1], le[0]]
}

/// The length that a four-byte prefix announces.
pub open spec fn prefix_len(prefix: Seq<u8>) -> u32 {
    spec_u32_from_le_bytes(seq![prefix[3], prefix[2], prefix[1], prefix[0]])
}

/// A payload as one stream frame: its length prefix, then its bytes.
pub open spec fn framed(payload: Seq<u8>) -> Seq<u8> {
    frame_prefix(payload.len() as u32) + payload
}

/// What the front of a receive buffer holds.
pub enum FrameStatus {
    /// Not yet a whole frame: more bytes are needed.
    Incomplete,
    /// A whole frame with this payload, taking up `consumed` bytes of the
    /// buffer.
    Complete { payload: Vec<u8>, consumed: usize },
    /// A prefix that announces more than `MAX_FRAME_LEN` bytes.
    Oversized,
}

/// The mathematical content of a `FrameStatus`.
pub ghost enum FrameStatusView {
    Incomplete,
    Complete { payload: Seq<u8>, consumed: int },
    Oversized,
}

impl View for FrameStatus {
    type V = FrameStatusView;

    open spec fn view(&self) -> FrameStatusView {
        match self {
            FrameStatus::Incomplete => FrameStatusView::Incomplete,
            FrameStatus::Complete { payload, consumed } => FrameStatusView::Complete {
                payload: payload@,
                consumed: *consumed as int,
            },
            FrameStatus::Oversized => FrameStatusView::Oversized,
        }
    }
}

/// What the front of `buffer` holds.
pub open spec fn frame_status(buffer: Seq<u8>) -> FrameStatusView {
    if buffer.len() < 4 {
        FrameStatusView::Incomplete
    } else {
        let len = prefix_len(buffer.subrange(0, 4));
        if len > MAX_FRAME_LEN {
            FrameStatusView::Oversized
        } else if buffer.len() < 4 + len {
            FrameStatusView::Incomplete
        } else {
            FrameStatusView::Complete { payload: buffer.subrange(4, 4 + len), consumed: 4 + len }
        }
    }
}

/// A frame followed by anything is read back as that frame's payload.
pub proof fn lemma_frame_round_trip(payload: Seq<u8>, rest: Seq<u8>)
    requires
        payload.len() <= MAX_FRAME_LEN,
    ensures
        frame_status(framed(payload) + rest) == (FrameStatusView::Complete {
            payload,
            consumed: 4 + payload.len() as int,
        }),
{
    lemma_auto_spec_u32_to_from_le_bytes();
    let len = payload.len() as u32;
    let le = spec_u32_to_le_bytes(len);
    let buffer = framed(payload) + rest;
    let prefix = buffer.subrange(0, 4);
    assert(prefix =~= frame_prefix(len));
    assert(seq![prefix[3], prefix[2], prefix[1], prefix[0]] =~= le);
    assert(buffer.subrange(4, 4 + len) =~= payload);
}

/// Wraps a payload as one stream frame. A payload over `MAX_FRAME_LEN` bytes
/// is refused with `Network`.
pub fn frame(payload: &[u8]) -> (r: Result<Vec<u8>, Error>)
    ensures
        match r {
            Ok(out) => payload@.len() <= MAX_FRAME_LEN && out@ == framed(payload@),
            Err(e) => payload@.len() > MAX_FRAME_LEN && e is Network,
        },
{
    if payload.len() > MAX_FRAME_LEN {
        return Err(Error::Network(String::from_str("frame size too big")));
    }
    let le = u32_to_le_bytes(payload.len() as u32);
    let mut out: Vec<u8> = Vec::new();
    out.push(le[3]);
    out.push(le[2]);
    out.push(le[1]);
    out.push(le[0]);
    assert(out@ =~= frame_prefix(payload@.len() as u32));
    append_bytes(&mut out, payload);
    Ok(out)
}

/// Looks for one whole frame at the front of a receive buffer.
pub fn unframe(buffer: &[u8]) -> (status: FrameStatus)
    ensures
        status@ == frame_status(buffer@),
{
    if buffer.len() < 4 {
        return FrameStatus::Incomplete;
    }
    let mut le: Vec<u8> = Vec::new();
    le.push(buffer[3]);
    le.push(buffer[2]);
    le.push(buffer[1]);
    le.push(buffer[0]);
    let ghost prefix = buffer@.subrange(0, 4);
    assert(le@ =~= seq![prefix[3], prefix[2], prefix[1], prefix[0]]);
    let len = u32_from_le_bytes(le.as_slice());
    if len as u64 > MAX_FRAME_LEN as u64 {
        return FrameStatus::Oversized;
    }
    let len = len as usize;
    if buffer.len() - 4 < len {
        return FrameStatus::Incomplete;
    }
    let payload = vstd::slice::slice_to_vec(slice_subrange(buffer, 4, 4 + len));
    FrameStatus::Complete { payload, consumed: 4 + len }
}

/// Decodes one datagram. A datagram over `MAX_DATAGRAM_LEN` bytes is refused
/// unread; any other is decoded as a message.
pub fn decode_datagram(bytes: &[u8]) -> (r: Result<Message, Error>)
    ensures
        match r {
            Ok(m) => bytes@.len() <= MAX_DATAGRAM_LEN && parse_message(bytes@) == Some(m@),
            Err(e) => e is Serialization && (bytes@.len() > MAX_DATAGRAM_LEN || parse_message(
                bytes@,
            ) is None),
        },
{
    if bytes.len() > MAX_DATAGRAM_LEN {
        return Err(malformed("datagram too large"));
    }
    decode_message(bytes)
}

} // verus!
