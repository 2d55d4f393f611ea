//! The application side of the membership engine's broadcasts: decodes each
//! received item, applies new document updates once, answers joiners with
//! the full state, keeps the latest node configurations, and says which items
//! to keep disseminating.

use vstd::prelude::*;
use std::collections::HashSet;
use crate::identity::PeerAddr;
use crate::broadcast::{
    Broadcast, FrameError, GossipMessage, MessageType, Tag, broadcast_bytes, craft_broadcast,
    parse_gossip, parse_tag, read_gossip, read_tag,
};

verus! {

broadcast use vstd::std_specs::hash::group_hash_axioms;

/// What the handler needs from the document it serves.
pub trait DataHandler {
    /// Applies a received message.
    fn handle_message(&mut self, msg_type: MessageType, data: Vec<u8>);

    /// The full current state, as a snapshot.
    fn get_state(&mut self) -> Vec<u8>;
}

/// Relies on uuid::Uuid::new_v4 and Uuid::as_u128: a random identifier.
/// Nothing is promised about which value it is.
#[verifier::external_body]
fn new_operation_id() -> u128 {
    uuid::Uuid::new_v4().as_u128()
}

/// The version recorded last for `node` in `log`, if any.
pub open spec fn latest_version(log: Seq<(PeerAddr, u64)>, node: PeerAddr) -> Option<u64>
    decreases log.len(),
{
    if log.len() == 0 {
        None
    } else if log.last().0 == node {
        Some(log.last().1)
    } else {
        latest_version(log.drop_last(), node)
    }
}

/// Whether a configuration of `node` at `version` is news given what is known.
pub open spec fn is_newer(known: Option<u64>, version: u64) -> bool {
    match known {
        Some(v) => v < version,
        None => true,
    }
}

pub struct Handler<D> {
    seen_op_ids: HashSet<u128>,
    /// The node configurations accepted so far, the latest last.
    node_versions: Vec<(PeerAddr, u64)>,
    data_handler: D,
    /// The operations handed to the data handler, in order.
    applied: Ghost<Seq<u128>>,
    /// The messages handed to the data handler, in order.
    handed: Ghost<Seq<(MessageType, Seq<u8>)>>,
    /// The snapshots the data handler gave out, in order.
    states_read: Ghost<Seq<Seq<u8>>>,
}

impl<D: DataHandler> Handler<D> {
    /// The operation ids processed so far.
    pub closed spec fn seen(&self) -> Set<u128> {
        self.seen_op_ids@
    }

    /// The operation ids whose messages were handed to the data handler, in order.
    pub closed spec fn applied(&self) -> Seq<u128> {
        self.applied@
    }

    /// The messages handed to the data handler, in the order of the calls.
    pub closed spec fn handed(&self) -> Seq<(MessageType, Seq<u8>)> {
        self.handed@
    }

    /// What each call of the data handler's `get_state` returned, in order.
    pub closed spec fn states_read(&self) -> Seq<Seq<u8>> {
        self.states_read@
    }

    pub closed spec fn data(&self) -> D {
        self.data_handler
    }

    /// The latest configuration version accepted for `node`.
    pub closed spec fn known_version(&self, node: PeerAddr) -> Option<u64> {
        latest_version(self.node_versions@, node)
    }

    /// No operation reached the data handler twice, and each one that did is seen.
    pub closed spec fn wf(&self) -> bool {
        &&& self.applied@.no_duplicates()
        &&& forall|i: int| 0 <= i < self.applied@.len() ==> self.seen_op_ids@.contains(#[trigger] self.applied@[i])
    }

    pub fn new(seen_op_ids: HashSet<u128>, data_handler: D) -> (r: Handler<D>)
        ensures
            r.wf(),
            r.seen() == seen_op_ids@,
            r.applied() == Seq::<u128>::empty(),
            r.handed() == Seq::<(MessageType, Seq<u8>)>::empty(),
            r.states_read() == Seq::<Seq<u8>>::empty(),
            r.data() == data_handler,
            forall|n: PeerAddr| r.known_version(n) is None,
    {
        Handler {
            seen_op_ids,
            node_versions: Vec::new(),
            data_handler,
            applied: Ghost(Seq::empty()),
            handed: Ghost(Seq::empty()),
            states_read: Ghost(Seq::empty()),
        }
    }

    pub fn data_handler(&self) -> (r: &D)
        ensures
            *r == self.data(),
    {
        &self.data_handler
    }

    pub fn craft_broadcast(&self, tag: Tag, item: GossipMessage) -> (r: Broadcast)
        ensures
            r.tag == tag,
            r.data@ == broadcast_bytes(tag, item.message_type, item.message_payload@),
    {
        craft_broadcast(tag, item)
    }

    fn lookup_version(&self, node: PeerAddr) -> (r: Option<u64>)
        ensures
            r == self.known_version(node),
    {
        let mut i: usize = self.node_versions.len();
        assert(self.node_versions@.subrange(0, i as int) =~= self.node_versions@);
        while i > 0
            invariant
                i <= self.node_versions@.len(),
                latest_version(self.node_versions@, node) == latest_version(
                    self.node_versions@.subrange(0, i as int),
                    node,
                ),
            decreases i,
        {
            let ghost prefix = self.node_versions@.subrange(0, i as int);
            assert(prefix.drop_last() =~= self.node_versions@.subrange(0, i - 1));
            let (n, v) = self.node_versions[i - 1];
            if n == node {
                return Some(v);
            }
            i = i - 1;
        }
        None
    }

    /// Decodes the item at the start of `data` and decides what to do with it.
    ///
    /// Returns the item to keep disseminating, if any, and how many bytes the
    /// item took. A new document update is handed to the data handler exactly
    /// once; one already seen is dropped. A startup announcement is answered
    /// with the full state under a fresh operation id. A node configuration
    /// is kept and passed on only when it is newer than the one known.
    pub fn receive_item(&mut self, data: &[u8]) -> (r: Result<(Option<Broadcast>, usize), FrameError>)
        requires
            old(self).wf(),
        ensures
            final(self).wf(),
            match parse_tag(data@, 0) {
                None => r == Err::<(Option<Broadcast>, usize), FrameError>(FrameError::BadTag)
                    && *final(self) == *old(self),
                Some((tag, n)) => match tag {
                    Tag::SyncOperation { operation_id } => match parse_gossip(data@, n) {
                        None => r == Err::<(Option<Broadcast>, usize), FrameError>(FrameError::BadPayload)
                            && *final(self) == *old(self),
                        Some((t, payload, end)) => r matches Ok((item, used)) && used == end && if old(
                            self,
                        ).seen().contains(operation_id) {
                            item is None && *final(self) == *old(self)
                        } else {
                            &&& item matches Some(b) && b.tag == tag && b.data@ == broadcast_bytes(
                                tag,
                                t,
                                payload,
                            )
                            &&& final(self).seen() == old(self).seen().insert(operation_id)
                            &&& final(self).applied() == old(self).applied().push(operation_id)
                            &&& final(self).handed() == old(self).handed().push((t, payload))
                            &&& final(self).states_read() == old(self).states_read()
                            &&& forall|k: PeerAddr| #[trigger] final(self).known_version(k)
                                == old(self).known_version(k)
                        },
                    },
                    Tag::StartupMessage { .. } => {
                        &&& final(self).states_read().len() == old(self).states_read().len() + 1
                        &&& final(self).states_read().drop_last() == old(self).states_read()
                        &&& r matches Ok((item, used)) && used == n && (item matches Some(b)
                            && b.tag is SyncOperation && b.data@ == broadcast_bytes(
                            b.tag,
                            MessageType::FullSync,
                            final(self).states_read().last(),
                        ))
                        &&& final(self).seen() == old(self).seen()
                        &&& final(self).applied() == old(self).applied()
                        &&& final(self).handed() == old(self).handed()
                        &&& forall|k: PeerAddr| #[trigger] final(self).known_version(k)
                            == old(self).known_version(k)
                    },
                    Tag::NodeConfig { node, version } => match parse_gossip(data@, n) {
                        None => r == Err::<(Option<Broadcast>, usize), FrameError>(FrameError::BadPayload)
                            && *final(self) == *old(self),
                        Some((t, payload, end)) => r matches Ok((item, used)) && used == end && if is_newer(
                            old(self).known_version(node),
                            version,
                        ) {
                            &&& item matches Some(b) && b.tag == tag && b.data@ == broadcast_bytes(
                                tag,
                                t,
                                payload,
                            )
                            &&& final(self).seen() == old(self).seen()
                            &&& final(self).applied() == old(self).applied()
                            &&& final(self).handed() == old(self).handed()
                            &&& final(self).states_read() == old(self).states_read()
                            &&& final(self).data() == old(self).data()
                            &&& forall|k: PeerAddr| #[trigger] final(self).known_version(k) == if k
                                == node {
                                Some(version)
                            } else {
                                old(self).known_version(k)
                            }
                        } else {
                            item is None && *final(self) == *old(self)
                        },
                    },
                },
            },
    {
        let (tag, n) = match read_tag(data, 0) {
            Some(x) => x,
            None => {
                return Err(FrameError::BadTag);
            },
        };
        match tag {
            Tag::SyncOperation { operation_id } => {
                // The message is decoded even when the item is dropped, so
                // that the caller learns where the next item starts.
                let (msg, end) = match read_gossip(data, n) {
                    Some(x) => x,
                    None => {
                        return Err(FrameError::BadPayload);
                    },
                };
                if self.seen_op_ids.contains(&operation_id) {
                    return Ok((None, end));
                }
                proof {
                    assert(!self.applied@.contains(operation_id));
                }
                self.seen_op_ids.insert(operation_id);
                self.applied = Ghost(self.applied@.push(operation_id));
                let ghost old_applied = self.applied@.drop_last();
                assert forall|i: int| 0 <= i < self.applied@.len() implies self.seen_op_ids@.contains(
                    #[trigger] self.applied@[i],
                ) by {
                    if i < self.applied@.len() - 1 {
                        assert(self.applied@[i] == old_applied[i]);
                    }
                }
                let payload = msg.message_payload.clone();
                proof {
                    assert(payload@ == msg.message_payload@);
                }
                self.handed = Ghost(self.handed@.push((msg.message_type, payload@)));
                self.data_handler.handle_message(msg.message_type, payload);
                Ok((Some(craft_broadcast(tag, msg)), end))
            },
            Tag::StartupMessage { .. } => {
                let state = self.data_handler.get_state();
                self.states_read = Ghost(self.states_read@.push(state@));
                let reply = startup_reply(new_operation_id(), state);
                Ok((Some(reply), n))
            },
            Tag::NodeConfig { node, version } => {
                let (msg, end) = match read_gossip(data, n) {
                    Some(x) => x,
                    None => {
                        return Err(FrameError::BadPayload);
                    },
                };
                let known = self.lookup_version(node);
                let newer = match known {
                    Some(v) => v < version,
                    None => true,
                };
                if !newer {
                    return Ok((None, end));
                }
                let ghost old_log = self.node_versions@;
                self.node_versions.push((node, version));
                assert(self.node_versions@.drop_last() =~= old_log);
                Ok((Some(craft_broadcast(tag, msg)), end))
            },
        }
    }
}

/// Each operation reaches the data handler at most once: whatever items a
/// handler received, the operations it handed on hold no repeat, and each
/// of them is among the seen ones.
pub proof fn law_each_operation_applied_once<D: DataHandler>(h: Handler<D>)
    requires
        h.wf(),
    ensures
        h.applied().no_duplicates(),
        forall|i: int| 0 <= i < h.applied().len() ==> h.seen().contains(#[trigger] h.applied()[i]),
{
}

/// The answer to a joiner: the full state `state` as a new document update
/// with id `operation_id`.
pub fn startup_reply(operation_id: u128, state: Vec<u8>) -> (r: Broadcast)
    ensures
        r.tag == (Tag::SyncOperation { operation_id }),
        r.data@ == broadcast_bytes(r.tag, MessageType::FullSync, state@),
{
    craft_broadcast(Tag::SyncOperation { operation_id }, GossipMessage::new(MessageType::FullSync, state))
}

} // verus!
