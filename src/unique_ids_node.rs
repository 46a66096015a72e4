//! A node that hands out identifiers that are unique across the cluster:
//! random version-4 UUIDs, held as their 128-bit values.
use std::collections::HashSet;
use vstd::prelude::*;
use crate::ids::{MessageId, NodeId};

verus! {

/// The version and variant bits of a UUID, as a 128-bit value.
pub const UUID_FORMAT_MASK: u128 = 0xF000_C000_0000_0000_0000u128;

/// The version and variant bits of a random (version 4) UUID.
pub const UUID_V4_BITS: u128 = 0x4000_8000_0000_0000_0000u128;

/// Whether `id` carries the version and variant of a random UUID.
pub open spec fn is_v4(id: u128) -> bool {
    id & UUID_FORMAT_MASK == UUID_V4_BITS
}

/// Relies on `uuid::Uuid::new_v4`, which draws 122 random bits and sets the
/// version nibble to 4 and the variant bits to `10`, and on
/// `Uuid::as_u128`, which reads the 16 bytes as a big-endian integer.
#[verifier::external_body]
pub(crate) fn fresh_id() -> (r: u128)
    ensures
        is_v4(r),
{
    uuid::Uuid::new_v4().as_u128()
}

#[derive(Debug, PartialEq, Eq)]
pub enum UniqueIdsPayload {
    Init { node_id: NodeId, node_ids: HashSet<usize> },
    InitOk,
    Generate,
    GenerateOk { id: u128 },
}

/// A reply to the sender of a request.
#[derive(Debug, PartialEq, Eq)]
pub struct UniqueIdsReply {
    pub msg_id: MessageId,
    pub in_reply_to: Option<MessageId>,
    pub payload: UniqueIdsPayload,
}

#[derive(Debug, PartialEq, Eq)]
pub enum UniqueIdsNode {
    Uninitialised { msg_id: MessageId },
    Initialised { msg_id: MessageId, node_id: NodeId, node_ids: HashSet<usize> },
}

impl UniqueIdsNode {
    pub open spec fn counter(self) -> usize {
        match self {
            UniqueIdsNode::Uninitialised { msg_id } => msg_id.id,
            UniqueIdsNode::Initialised { msg_id, .. } => msg_id.id,
        }
    }

    pub fn new() -> (r: UniqueIdsNode)
        ensures
            r == (UniqueIdsNode::Uninitialised { msg_id: MessageId { id: 0 } }),
    {
        UniqueIdsNode::Uninitialised { msg_id: MessageId::new(0) }
    }

    /// The node's identity, once it is initialised.
    pub fn id(&self) -> (r: Option<NodeId>)
        ensures
            r == (match *self {
                UniqueIdsNode::Uninitialised { .. } => None,
                UniqueIdsNode::Initialised { node_id, .. } => Some(node_id),
            }),
    {
        match self {
            UniqueIdsNode::Uninitialised { .. } => None,
            UniqueIdsNode::Initialised { node_id, .. } => Some(*node_id),
        }
    }

    /// The node's sequence counter.
    pub fn msg_id(&self) -> (r: MessageId)
        ensures
            r.id == self.counter(),
    {
        match self {
            UniqueIdsNode::Uninitialised { msg_id } => *msg_id,
            UniqueIdsNode::Initialised { msg_id, .. } => *msg_id,
        }
    }

    /// Handles one request: `init` once, then `generate`, each answered with
    /// the next sequence number; a `generate` is answered with a fresh random
    /// UUID. A payload that the node's stage does not expect changes nothing
    /// and has no reply.
    pub fn handle(self, request_id: Option<MessageId>, payload: UniqueIdsPayload) -> (r: (
        UniqueIdsNode,
        Option<UniqueIdsReply>,
    ))
        requires
            self.counter() < usize::MAX,
        ensures
            match self {
                UniqueIdsNode::Uninitialised { msg_id } => match payload {
                    UniqueIdsPayload::Init { node_id, node_ids } => {
                        &&& r.0 == UniqueIdsNode::Initialised {
                            msg_id: MessageId { id: (msg_id.id + 1) as usize },
                            node_id,
                            node_ids,
                        }
                        &&& r.1 == Some(UniqueIdsReply {
                            msg_id: MessageId { id: (msg_id.id + 1) as usize },
                            in_reply_to: request_id,
                            payload: UniqueIdsPayload::InitOk,
                        })
                    },
                    _ => r.0 == self && r.1 is None,
                },
                UniqueIdsNode::Initialised { msg_id, node_id, node_ids } => match payload {
                    UniqueIdsPayload::Generate => {
                        &&& r.0 == UniqueIdsNode::Initialised {
                            msg_id: MessageId { id: (msg_id.id + 1) as usize },
                            node_id,
                            node_ids,
                        }
                        &&& r.1 matches Some(rp)
                        &&& r.1->0.msg_id.id == msg_id.id + 1
                        &&& r.1->0.in_reply_to == request_id
                        &&& r.1->0.payload matches UniqueIdsPayload::GenerateOk { id } && is_v4(id)
                    },
                    _ => r.0 == self && r.1 is None,
                },
            },
    {
        match self {
            UniqueIdsNode::Uninitialised { msg_id } => match payload {
                UniqueIdsPayload::Init { node_id, node_ids } => {
                    let next = msg_id.increment();
                    let reply = UniqueIdsReply { msg_id: next, in_reply_to: request_id, payload: UniqueIdsPayload::InitOk };
                    (UniqueIdsNode::Initialised { msg_id: next, node_id, node_ids }, Some(reply))
                },
                _ => (UniqueIdsNode::Uninitialised { msg_id }, None),
            },
            UniqueIdsNode::Initialised { msg_id, node_id, node_ids } => match payload {
                UniqueIdsPayload::Generate => {
                    let next = msg_id.increment();
                    let id = fresh_id();
                    let reply = UniqueIdsReply {
                        msg_id: next,
                        in_reply_to: request_id,
                        payload: UniqueIdsPayload::GenerateOk { id },
                    };
                    (UniqueIdsNode::Initialised { msg_id: next, node_id, node_ids }, Some(reply))
                },
                _ => (UniqueIdsNode::Initialised { msg_id, node_id, node_ids }, None),
            },
        }
    }
}

} // verus!
