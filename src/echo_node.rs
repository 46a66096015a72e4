//! A node that answers each `echo` with the same text.
use std::collections::HashSet;
use vstd::prelude::*;
use crate::ids::{MessageId, NodeId};

verus! {

#[derive(Debug, PartialEq, Eq)]
pub enum EchoPayload {
    Init { node_id: NodeId, node_ids: HashSet<usize> },
    InitOk,
    Echo { echo: String },
    EchoOk { echo: String },
}

/// A reply to the sender of a request.
#[derive(Debug, PartialEq, Eq)]
pub struct EchoReply {
    pub msg_id: MessageId,
    pub in_reply_to: Option<MessageId>,
    pub payload: EchoPayload,
}

#[derive(Debug, PartialEq, Eq)]
pub enum EchoNode {
    Uninitialised { msg_id: MessageId },
    Initialised { msg_id: MessageId, node_id: NodeId, node_ids: HashSet<usize> },
}

impl EchoNode {
    pub open spec fn counter(self) -> usize {
        match self {
            EchoNode::Uninitialised { msg_id } => msg_id.id,
            EchoNode::Initialised { msg_id, .. } => msg_id.id,
        }
    }

    pub fn new() -> (r: EchoNode)
        ensures
            r == (EchoNode::Uninitialised { msg_id: MessageId { id: 0 } }),
    {
        EchoNode::Uninitialised { msg_id: MessageId::new(0) }
    }

    /// The node's identity, once it is initialised.
    pub fn id(&self) -> (r: Option<NodeId>)
        ensures
            r == (match *self {
                EchoNode::Uninitialised { .. } => None,
                EchoNode::Initialised { node_id, .. } => Some(node_id),
            }),
    {
        match self {
            EchoNode::Uninitialised { .. } => None,
            EchoNode::Initialised { node_id, .. } => Some(*node_id),
        }
    }

    /// The node's sequence counter.
    pub fn msg_id(&self) -> (r: MessageId)
        ensures
            r.id == self.counter(),
    {
        match self {
            EchoNode::Uninitialised { msg_id } => *msg_id,
            EchoNode::Initialised { msg_id, .. } => *msg_id,
        }
    }

    /// Handles one request: `init` once, then `echo`, each answered with the
    /// next sequence number. A payload that the node's stage does not expect
    /// changes nothing and has no reply.
    pub fn handle(self, request_id: Option<MessageId>, payload: EchoPayload) -> (r: (EchoNode, Option<EchoReply>))
        requires
            self.counter() < usize::MAX,
        ensures
            match self {
                EchoNode::Uninitialised { msg_id } => match payload {
                    EchoPayload::Init { node_id, node_ids } => {
                        &&& r.0 == EchoNode::Initialised {
                            msg_id: MessageId { id: (msg_id.id + 1) as usize },
                            node_id,
                            node_ids,
                        }
                        &&& r.1 == Some(EchoReply {
                            msg_id: MessageId { id: (msg_id.id + 1) as usize },
                            in_reply_to: request_id,
                            payload: EchoPayload::InitOk,
                        })
                    },
                    _ => r.0 == self && r.1 is None,
                },
                EchoNode::Initialised { msg_id, node_id, node_ids } => match payload {
                    EchoPayload::Echo { echo } => {
                        &&& r.0 == EchoNode::Initialised {
                            msg_id: MessageId { id: (msg_id.id + 1) as usize },
                            node_id,
                            node_ids,
                        }
                        &&& r.1 matches Some(rp)
                        &&& r.1->0.msg_id.id == msg_id.id + 1
                        &&& r.1->0.in_reply_to == request_id
                        &&& r.1->0.payload matches EchoPayload::EchoOk { echo: e } && e@ == echo@
                    },
                    _ => r.0 == self && r.1 is None,
                },
            },
    {
        match self {
            EchoNode::Uninitialised { msg_id } => match payload {
                EchoPayload::Init { node_id, node_ids } => {
                    let next = msg_id.increment();
                    let reply = EchoReply { msg_id: next, in_reply_to: request_id, payload: EchoPayload::InitOk };
                    (EchoNode::Initialised { msg_id: next, node_id, node_ids }, Some(reply))
                },
                _ => (EchoNode::Uninitialised { msg_id }, None),
            },
            EchoNode::Initialised { msg_id, node_id, node_ids } => match payload {
                EchoPayload::Echo { echo } => {
                    let next = msg_id.increment();
                    let reply = EchoReply { msg_id: next, in_reply_to: request_id, payload: EchoPayload::EchoOk { echo } };
                    (EchoNode::Initialised { msg_id: next, node_id, node_ids }, Some(reply))
                },
                _ => (EchoNode::Initialised { msg_id, node_id, node_ids }, None),
            },
        }
    }
}

} // verus!
