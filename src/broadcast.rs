//! Broadcast items: their tags, their framing, when one supersedes another,
//! and the handler that decodes, deduplicates and re-broadcasts them.

use vstd::prelude::*;
use crate::identity::PeerAddr;
use crate::wire::{
    addr_bytes, le_at, le_bytes, lemma_addr_round_trip, lemma_le_at, lemma_le_bytes_len,
    lemma_le_value_bound, lemma_pow256_values, lemma_varint_round_trip, parse_addr, parse_varint,
    push_addr, push_le, push_varint, read_addr, read_le, read_varint, varint_bytes,
};

verus! {

/// What a broadcast item is about.
#[derive(Clone, Copy, Debug, PartialEq, Eq, Structural)]
pub enum Tag {
    /// A document update, identified by the id of the write that originated it.
    SyncOperation { operation_id: u128 },
    /// A node announcing that it started (time in nanoseconds since the epoch).
    StartupMessage { startup_time: i64, node_id: u128 },
    /// The configuration of `node`; later versions supersede earlier ones.
    NodeConfig { node: PeerAddr, version: u64 },
}

#[derive(Clone, Copy, Debug, PartialEq, Eq, Structural)]
pub enum MessageType {
    FullSync,
    IncSync,
}

/// The envelope of an application payload.
#[derive(Clone, Debug)]
pub struct GossipMessage {
    pub message_type: MessageType,
    pub message_payload: Vec<u8>,
}

impl GossipMessage {
    pub fn new(message_type: MessageType, message_payload: Vec<u8>) -> (r: GossipMessage)
        ensures
            r.message_type == message_type,
            r.message_payload@ == message_payload@,
    {
        GossipMessage { message_type, message_payload }
    }
}

/// A framed broadcast item: its tag and the bytes handed to the engine.
#[derive(Clone, Debug)]
pub struct Broadcast {
    pub tag: Tag,
    pub data: Vec<u8>,
}

/// Why an item could not be decoded.
#[derive(Clone, Copy, Debug, PartialEq, Eq, Structural)]
pub enum FrameError {
    /// The leading tag is malformed or truncated.
    BadTag,
    /// The payload after the tag is malformed or truncated.
    BadPayload,
}

pub open spec fn i64_bits(t: i64) -> nat {
    if t >= 0 {
        t as nat
    } else {
        (t + 0x1_0000_0000_0000_0000) as nat
    }
}

pub open spec fn i64_from_bits(v: nat) -> i64 {
    if v < 0x8000_0000_0000_0000 {
        v as i64
    } else {
        (v - 0x1_0000_0000_0000_0000) as i64
    }
}

pub open spec fn tag_bytes(t: Tag) -> Seq<u8> {
    match t {
        Tag::SyncOperation { operation_id } => seq![0u8] + le_bytes(operation_id as nat, 16),
        Tag::StartupMessage { startup_time, node_id } => seq![1u8] + le_bytes(i64_bits(startup_time), 8)
            + le_bytes(node_id as nat, 16),
        Tag::NodeConfig { node, version } => seq![2u8] + addr_bytes(node) + le_bytes(version as nat, 8),
    }
}

/// The tag at `pos`, and the position after it.
pub open spec fn parse_tag(s: Seq<u8>, pos: nat) -> Option<(Tag, nat)> {
    if pos >= s.len() {
        None
    } else if s[pos as int] == 0 {
        match le_at(s, pos + 1, 16) {
            Some(id) => Some((Tag::SyncOperation { operation_id: id as u128 }, pos + 17)),
            None => None,
        }
    } else if s[pos as int] == 1 {
        match (le_at(s, pos + 1, 8), le_at(s, pos + 9, 16)) {
            (Some(t), Some(id)) => Some(
                (Tag::StartupMessage { startup_time: i64_from_bits(t), node_id: id as u128 }, pos + 25),
            ),
            _ => None,
        }
    } else if s[pos as int] == 2 {
        match parse_addr(s, pos + 1) {
            Some((a, q)) => match le_at(s, q, 8) {
                Some(v) => Some((Tag::NodeConfig { node: a, version: v as u64 }, q + 8)),
                None => None,
            },
            None => None,
        }
    } else {
        None
    }
}

pub open spec fn message_type_byte(t: MessageType) -> u8 {
    match t {
        MessageType::FullSync => 0,
        MessageType::IncSync => 1,
    }
}

pub open spec fn gossip_bytes(t: MessageType, payload: Seq<u8>) -> Seq<u8> {
    seq![message_type_byte(t)] + varint_bytes(payload.len()) + payload
}

/// The message at `pos`: its type, its payload and the position after it.
pub open spec fn parse_gossip(s: Seq<u8>, pos: nat) -> Option<(MessageType, Seq<u8>, nat)> {
    if pos >= s.len() || s[pos as int] > 1 {
        None
    } else {
        let t = if s[pos as int] == 0 {
            MessageType::FullSync
        } else {
            MessageType::IncSync
        };
        match parse_varint(s, pos + 1) {
            Some((n, q)) => if q + n <= s.len() {
                Some((t, s.subrange(q as int, (q + n) as int), q + n))
            } else {
                None
            },
            None => None,
        }
    }
}

/// Whether items with this tag carry a message after the tag.
pub open spec fn carries_message(t: Tag) -> bool {
    !(t is StartupMessage)
}

/// The bytes of an item: the tag, then the message where the tag has one.
pub open spec fn broadcast_bytes(tag: Tag, t: MessageType, payload: Seq<u8>) -> Seq<u8> {
    tag_bytes(tag) + if carries_message(tag) {
        gossip_bytes(t, payload)
    } else {
        seq![]
    }
}

/// An item with tag `a` supersedes one with tag `b`: both configure the same
/// node and `a` is the later version.
pub open spec fn supersedes(a: Tag, b: Tag) -> bool {
    match (a, b) {
        (
            Tag::NodeConfig { node: n1, version: v1 },
            Tag::NodeConfig { node: n2, version: v2 },
        ) => n1 == n2 && v1 > v2,
        _ => false,
    }
}

fn push_i64(buf: &mut Vec<u8>, t: i64)
    ensures
        final(buf)@ == old(buf)@ + le_bytes(i64_bits(t), 8),
{
    let bits: u64 = if t >= 0 {
        t as u64
    } else {
        u64::MAX - ((-(t + 1)) as u64)
    };
    push_le(buf, bits as u128, 8);
}

pub fn push_tag(buf: &mut Vec<u8>, t: Tag)
    ensures
        final(buf)@ == old(buf)@ + tag_bytes(t),
{
    let ghost start = buf@;
    match t {
        Tag::SyncOperation { operation_id } => {
            buf.push(0);
            push_le(buf, operation_id, 16);
        },
        Tag::StartupMessage { startup_time, node_id } => {
            buf.push(1);
            push_i64(buf, startup_time);
            push_le(buf, node_id, 16);
        },
        Tag::NodeConfig { node, version } => {
            buf.push(2);
            push_addr(buf, node);
            push_le(buf, version as u128, 8);
        },
    }
    assert(buf@ =~= start + tag_bytes(t));
}

pub fn read_tag(data: &[u8], pos: usize) -> (r: Option<(Tag, usize)>)
    ensures
        match r {
            Some((t, end)) => parse_tag(data@, pos as nat) == Some((t, end as nat)),
            None => parse_tag(data@, pos as nat) is None,
        },
{
    if pos >= data.len() {
        return None;
    }
    proof {
        lemma_pow256_values();
    }
    let kind: u8 = data[pos];
    if kind == 0 {
        if data.len() - pos < 17 {
            return None;
        }
        match read_le(data, pos + 1, 16) {
            Some(id) => Some((Tag::SyncOperation { operation_id: id }, pos + 17)),
            None => None,
        }
    } else if kind == 1 {
        if data.len() - pos < 25 {
            return None;
        }
        match (read_le(data, pos + 1, 8), read_le(data, pos + 9, 16)) {
            (Some(bits), Some(id)) => {
                proof {
                    lemma_le_value_bound(data@.subrange(pos + 1, pos + 9));
                }
                let b: u64 = bits as u64;
                let t: i64 = if b < 0x8000_0000_0000_0000 {
                    b as i64
                } else {
                    -((u64::MAX - b) as i64) - 1
                };
                Some((Tag::StartupMessage { startup_time: t, node_id: id }, pos + 25))
            },
            _ => None,
        }
    } else if kind == 2 {
        match read_addr(data, pos + 1) {
            Some((a, q)) => {
                if data.len() - q < 8 {
                    return None;
                }
                match read_le(data, q, 8) {
                    Some(v) => {
                        proof {
                            lemma_le_value_bound(data@.subrange(q as int, q + 8));
                        }
                        Some((Tag::NodeConfig { node: a, version: v as u64 }, q + 8))
                    },
                    None => None,
                }
            },
            None => None,
        }
    } else {
        None
    }
}

pub fn push_gossip(buf: &mut Vec<u8>, m: &GossipMessage)
    ensures
        final(buf)@ == old(buf)@ + gossip_bytes(m.message_type, m.message_payload@),
{
    let ghost start = buf@;
    let kind: u8 = match m.message_type {
        MessageType::FullSync => 0,
        MessageType::IncSync => 1,
    };
    buf.push(kind);
    push_varint(buf, m.message_payload.len() as u64);
    let ghost mid = buf@;
    let n = m.message_payload.len();
    let mut i: usize = 0;
    while i < n
        invariant
            i <= n == m.message_payload@.len(),
            buf@ == mid + m.message_payload@.subrange(0, i as int),
        decreases n - i,
    {
        buf.push(m.message_payload[i]);
        assert(m.message_payload@.subrange(0, i + 1) =~= m.message_payload@.subrange(0, i as int).push(
            m.message_payload@[i as int],
        ));
        i = i + 1;
    }
    assert(m.message_payload@.subrange(0, n as int) =~= m.message_payload@);
    assert(buf@ =~= start + gossip_bytes(m.message_type, m.message_payload@));
}

pub fn read_gossip(data: &[u8], pos: usize) -> (r: Option<(GossipMessage, usize)>)
    ensures
        match r {
            Some((m, end)) => parse_gossip(data@, pos as nat) == Some(
                (m.message_type, m.message_payload@, end as nat),
            ),
            None => parse_gossip(data@, pos as nat) is None,
        },
{
    if pos >= data.len() || data[pos] > 1 {
        return None;
    }
    let t = if data[pos] == 0 {
        MessageType::FullSync
    } else {
        MessageType::IncSync
    };
    let (n, q) = match read_varint(data, pos + 1) {
        Some(x) => x,
        None => {
            return None;
        },
    };
    if n > (data.len() - q) as u64 {
        return None;
    }
    let end: usize = q + n as usize;
    let mut payload: Vec<u8> = Vec::new();
    let mut i: usize = q;
    while i < end
        invariant
            q <= i <= end <= data@.len(),
            payload@ == data@.subrange(q as int, i as int),
        decreases end - i,
    {
        payload.push(data[i]);
        assert(data@.subrange(q as int, i + 1) =~= data@.subrange(q as int, i as int).push(data@[i as int]));
        i = i + 1;
    }
    Some((GossipMessage { message_type: t, message_payload: payload }, end))
}

pub proof fn lemma_tag_round_trip(s: Seq<u8>, pos: nat, t: Tag)
    requires
        pos + tag_bytes(t).len() <= s.len(),
        s.subrange(pos as int, (pos + tag_bytes(t).len()) as int) == tag_bytes(t),
    ensures
        parse_tag(s, pos) == Some((t, pos + tag_bytes(t).len())),
{
    lemma_pow256_values();
    let e = tag_bytes(t);
    let p = pos as int;
    assert(s[p] == e[0]);
    match t {
        Tag::SyncOperation { operation_id } => {
            lemma_le_bytes_len(operation_id as nat, 16);
            assert(s.subrange(p + 1, p + 17) =~= e.subrange(1, 17));
            assert(e.subrange(1, 17) =~= le_bytes(operation_id as nat, 16));
            lemma_le_at(s, pos + 1, operation_id as nat, 16);
        },
        Tag::StartupMessage { startup_time, node_id } => {
            lemma_le_bytes_len(i64_bits(startup_time), 8);
            lemma_le_bytes_len(node_id as nat, 16);
            assert(s.subrange(p + 1, p + 9) =~= e.subrange(1, 9));
            assert(e.subrange(1, 9) =~= le_bytes(i64_bits(startup_time), 8));
            assert(s.subrange(p + 9, p + 25) =~= e.subrange(9, 25));
            assert(e.subrange(9, 25) =~= le_bytes(node_id as nat, 16));
            lemma_le_at(s, pos + 1, i64_bits(startup_time), 8);
            lemma_le_at(s, pos + 9, node_id as nat, 16);
        },
        Tag::NodeConfig { node, version } => {
            let a = addr_bytes(node);
            lemma_le_bytes_len(version as nat, 8);
            assert(s.subrange(p + 1, p + 1 + a.len()) =~= e.subrange(1, 1 + a.len() as int));
            assert(e.subrange(1, 1 + a.len() as int) =~= a);
            lemma_addr_round_trip(s, pos + 1, node);
            let q = p + 1 + a.len();
            assert(s.subrange(q, q + 8) =~= e.subrange(1 + a.len() as int, e.len() as int));
            assert(e.subrange(1 + a.len() as int, e.len() as int) =~= le_bytes(version as nat, 8));
            lemma_le_at(s, (pos + 1 + a.len()) as nat, version as nat, 8);
        },
    }
}

pub proof fn lemma_gossip_round_trip(s: Seq<u8>, pos: nat, t: MessageType, payload: Seq<u8>)
    requires
        payload.len() < 0x1_0000_0000_0000_0000,
        pos + gossip_bytes(t, payload).len() <= s.len(),
        s.subrange(pos as int, (pos + gossip_bytes(t, payload).len()) as int) == gossip_bytes(t, payload),
    ensures
        parse_gossip(s, pos) == Some((t, payload, pos + gossip_bytes(t, payload).len())),
{
    let e = gossip_bytes(t, payload);
    let v = varint_bytes(payload.len());
    let p = pos as int;
    assert(s[p] == e[0]);
    assert(s.subrange(p + 1, p + 1 + v.len()) =~= e.subrange(1, 1 + v.len() as int));
    assert(e.subrange(1, 1 + v.len() as int) =~= v);
    lemma_varint_round_trip(s, pos + 1, payload.len());
    let q = p + 1 + v.len();
    assert(s.subrange(q, q + payload.len()) =~= e.subrange(1 + v.len() as int, e.len() as int));
    assert(e.subrange(1 + v.len() as int, e.len() as int) =~= payload);
}

/// Framing round trip: the bytes crafted for an item whose tag carries a
/// message decode to that same tag and message, and the message ends where
/// the bytes end. A handler that has not seen the item thus re-crafts the
/// very same bytes from them.
pub proof fn law_framing_round_trip(tag: Tag, t: MessageType, payload: Seq<u8>)
    requires
        carries_message(tag),
        payload.len() <= usize::MAX,
    ensures
        parse_tag(broadcast_bytes(tag, t, payload), 0) == Some((tag, tag_bytes(tag).len())),
        parse_gossip(broadcast_bytes(tag, t, payload), tag_bytes(tag).len()) == Some(
            (t, payload, broadcast_bytes(tag, t, payload).len()),
        ),
{
    let s = broadcast_bytes(tag, t, payload);
    let a = tag_bytes(tag);
    let g = gossip_bytes(t, payload);
    assert(s.subrange(0, a.len() as int) =~= a);
    lemma_tag_round_trip(s, 0, tag);
    assert(s.subrange(a.len() as int, (a.len() + g.len()) as int) =~= g);
    lemma_gossip_round_trip(s, a.len(), t, payload);
}

/// Frames an item: the tag, then the message where the tag carries one.
pub fn craft_broadcast(tag: Tag, item: GossipMessage) -> (r: Broadcast)
    ensures
        r.tag == tag,
        r.data@ == broadcast_bytes(tag, item.message_type, item.message_payload@),
{
    let mut data: Vec<u8> = Vec::new();
    push_tag(&mut data, tag);
    match tag {
        Tag::StartupMessage { .. } => {},
        _ => {
            push_gossip(&mut data, &item);
        },
    }
    assert(data@ =~= broadcast_bytes(tag, item.message_type, item.message_payload@));
    Broadcast { tag, data }
}

impl Broadcast {
    /// Whether this item makes `other` obsolete.
    pub fn invalidates(&self, other: &Broadcast) -> (r: bool)
        ensures
            r == supersedes(self.tag, other.tag),
    {
        match (self.tag, other.tag) {
            (
                Tag::NodeConfig { node: n1, version: v1 },
                Tag::NodeConfig { node: n2, version: v2 },
            ) => n1 == n2 && v1 > v2,
            _ => false,
        }
    }

    pub fn as_bytes(&self) -> (r: &[u8])
        ensures
            r@ == self.data@,
    {
        self.data.as_slice()
    }
}

} // verus!
