//! A node that keeps keyed append-only logs: it appends messages, serves
//! them from given offsets, and records committed offsets.
use std::collections::HashSet;
use vstd::prelude::*;
use crate::ids::{MessageId, NodeId};
use crate::keyed::LogKey;
use crate::log_entries::{next_offset, skip_below, LogEntry, LogMessage, LogOffset};
use crate::logs::{committed_or_zero, log_at, Logs, Messages, Offsets};

verus! {

#[derive(Debug)]
pub enum KafkaPayload {
    Init { node_id: NodeId, node_ids: HashSet<usize> },
    InitOk,
    Send { key: LogKey, msg: LogMessage },
    SendOk { offset: LogOffset },
    Poll { offsets: Offsets },
    PollOk { msgs: Messages },
    CommitOffsets { offsets: Offsets },
    CommitOffsetsOk,
    ListCommittedOffsets { keys: Vec<LogKey> },
    ListCommittedOffsetsOk { offsets: Offsets },
}

/// A reply to the sender of a request.
#[derive(Debug)]
pub struct KafkaReply {
    pub msg_id: MessageId,
    pub in_reply_to: Option<MessageId>,
    pub payload: KafkaPayload,
}

#[derive(Debug)]
pub enum KafkaNode {
    Uninitialised { msg_id: MessageId },
    Initialised { msg_id: MessageId, node_id: NodeId, node_ids: HashSet<usize>, logs: Logs },
}

/// `new` is an initialised node with these fields and logs.
pub open spec fn kafka_node_is(
    new: KafkaNode,
    msg_id: usize,
    node_id: NodeId,
    node_ids: HashSet<usize>,
    logs: Map<Seq<char>, (Seq<LogEntry>, Option<LogOffset>)>,
) -> bool {
    new matches KafkaNode::Initialised { msg_id: m, node_id: n, node_ids: ns, logs: l }
        && m.id == msg_id && n == node_id && ns == node_ids && l.wf() && l@ == logs
}

/// A reply with sequence number `id` to the request `request_id`.
pub open spec fn kafka_reply_is(reply: Option<KafkaReply>, id: usize, request_id: Option<MessageId>) -> bool {
    reply matches Some(rp) && rp.msg_id.id == id && rp.in_reply_to == request_id
}

/// Handling `payload` takes `old` to `new` with `reply`. Every request that
/// the stage expects moves the sequence counter on.
pub open spec fn kafka_handled(
    old: KafkaNode,
    request_id: Option<MessageId>,
    payload: KafkaPayload,
    new: KafkaNode,
    reply: Option<KafkaReply>,
) -> bool {
    match old {
        KafkaNode::Uninitialised { msg_id } => match payload {
            KafkaPayload::Init { node_id, node_ids } => {
                &&& kafka_node_is(new, (msg_id.id + 1) as usize, node_id, node_ids, Map::empty())
                &&& kafka_reply_is(reply, (msg_id.id + 1) as usize, request_id)
                &&& reply->0.payload is InitOk
            },
            _ => new == old && reply is None,
        },
        KafkaNode::Initialised { msg_id, node_id, node_ids, logs } => {
            let next = (msg_id.id + 1) as usize;
            match payload {
                KafkaPayload::Send { key, msg } => {
                    let log = log_at(logs@, key.key@);
                    let offset = LogOffset { offset: next_offset(log.0) as usize };
                    &&& kafka_node_is(
                        new,
                        next,
                        node_id,
                        node_ids,
                        logs@.insert(key.key@, (log.0.push(LogEntry { offset, message: msg }), log.1)),
                    )
                    &&& kafka_reply_is(reply, next, request_id)
                    &&& reply->0.payload == KafkaPayload::SendOk { offset }
                },
                KafkaPayload::Poll { offsets } => {
                    &&& kafka_node_is(new, next, node_id, node_ids, logs@)
                    &&& kafka_reply_is(reply, next, request_id)
                    &&& reply->0.payload matches KafkaPayload::PollOk { msgs } && msgs.wf() && msgs@ == Map::new(
                        |k: Seq<char>| offsets@.contains_key(k) && offsets@[k] is Some && logs@.contains_key(k),
                        |k: Seq<char>| skip_below(logs@[k].0, offsets@[k].unwrap().offset),
                    )
                },
                KafkaPayload::CommitOffsets { offsets } => {
                    &&& kafka_node_is(
                        new,
                        next,
                        node_id,
                        node_ids,
                        Map::new(
                            |k: Seq<char>| logs@.contains_key(k),
                            |k: Seq<char>| if offsets@.contains_key(k) {
                                (logs@[k].0, offsets@[k])
                            } else {
                                logs@[k]
                            },
                        ),
                    )
                    &&& kafka_reply_is(reply, next, request_id)
                    &&& reply->0.payload is CommitOffsetsOk
                },
                KafkaPayload::ListCommittedOffsets { keys } => {
                    &&& kafka_node_is(new, next, node_id, node_ids, logs@)
                    &&& kafka_reply_is(reply, next, request_id)
                    &&& reply->0.payload matches KafkaPayload::ListCommittedOffsetsOk { offsets } && offsets.wf()
                        && offsets@ == Map::new(
                        |k: Seq<char>| exists|j: int| 0 <= j < keys@.len() && #[trigger] keys@[j].key@ == k,
                        |k: Seq<char>| Some(committed_or_zero(logs@, k)),
                    )
                },
                _ => new == old && reply is None,
            }
        },
    }
}

impl KafkaNode {
    pub open spec fn wf(self) -> bool {
        match self {
            KafkaNode::Uninitialised { .. } => true,
            KafkaNode::Initialised { logs, .. } => logs.wf(),
        }
    }

    /// What handling `payload` needs: a counter that can move on, well-formed
    /// offset tables, and room for one more offset in the log that a `send`
    /// appends to.
    pub open spec fn can_handle(self, payload: KafkaPayload) -> bool {
        match self {
            KafkaNode::Uninitialised { msg_id } => msg_id.id < usize::MAX,
            KafkaNode::Initialised { msg_id, logs, .. } => {
                &&& msg_id.id < usize::MAX
                &&& match payload {
                    KafkaPayload::Send { key, .. } => next_offset(log_at(logs@, key.key@).0) <= usize::MAX,
                    KafkaPayload::Poll { offsets } => offsets.wf(),
                    KafkaPayload::CommitOffsets { offsets } => offsets.wf(),
                    _ => true,
                }
            },
        }
    }

    pub fn new() -> (r: KafkaNode)
        ensures
            r == (KafkaNode::Uninitialised { msg_id: MessageId { id: 0 } }),
    {
        KafkaNode::Uninitialised { msg_id: MessageId::new(0) }
    }

    /// The node's identity, once it is initialised.
    pub fn id(&self) -> (r: Option<NodeId>)
        ensures
            r == (match *self {
                KafkaNode::Uninitialised { .. } => None,
                KafkaNode::Initialised { node_id, .. } => Some(node_id),
            }),
    {
        match self {
            KafkaNode::Uninitialised { .. } => None,
            KafkaNode::Initialised { node_id, .. } => Some(*node_id),
        }
    }

    /// The node's sequence counter.
    pub fn msg_id(&self) -> (r: MessageId)
        ensures
            r == (match *self {
                KafkaNode::Uninitialised { msg_id } => msg_id,
                KafkaNode::Initialised { msg_id, .. } => msg_id,
            }),
    {
        match self {
            KafkaNode::Uninitialised { msg_id } => *msg_id,
            KafkaNode::Initialised { msg_id, .. } => *msg_id,
        }
    }

    /// Whether `handle` can take `payload`; see `can_handle`.
    pub fn can_take(&self, payload: &KafkaPayload) -> (r: bool)
        requires
            self.wf(),
        ensures
            r == self.can_handle(*payload),
    {
        match self {
            KafkaNode::Uninitialised { msg_id } => msg_id.id < usize::MAX,
            KafkaNode::Initialised { msg_id, logs, .. } => {
                msg_id.id < usize::MAX && match payload {
                    KafkaPayload::Send { key, .. } => logs.has_room(key),
                    KafkaPayload::Poll { offsets } => offsets.is_wf(),
                    KafkaPayload::CommitOffsets { offsets } => offsets.is_wf(),
                    _ => true,
                }
            },
        }
    }

    /// Handles one request; a payload that the node's stage does not expect
    /// changes nothing and has no reply.
    pub fn handle(self, request_id: Option<MessageId>, payload: KafkaPayload) -> (r: (KafkaNode, Option<KafkaReply>))
        requires
            self.wf(),
            self.can_handle(payload),
        ensures
            r.0.wf(),
            kafka_handled(self, request_id, payload, r.0, r.1),
    {
        match self {
            KafkaNode::Uninitialised { msg_id } => match payload {
                KafkaPayload::Init { node_id, node_ids } => {
                    let next = msg_id.increment();
                    let reply = KafkaReply { msg_id: next, in_reply_to: request_id, payload: KafkaPayload::InitOk };
                    (KafkaNode::Initialised { msg_id: next, node_id, node_ids, logs: Logs::new() }, Some(reply))
                },
                _ => (KafkaNode::Uninitialised { msg_id }, None),
            },
            KafkaNode::Initialised { msg_id, node_id, node_ids, mut logs } => match payload {
                KafkaPayload::Send { key, msg } => {
                    let offset = logs.append_message(key.key.as_str(), msg.message);
                    let next = msg_id.increment();
                    let reply = KafkaReply { msg_id: next, in_reply_to: request_id, payload: KafkaPayload::SendOk { offset } };
                    (KafkaNode::Initialised { msg_id: next, node_id, node_ids, logs }, Some(reply))
                },
                KafkaPayload::Poll { offsets } => {
                    let since = logs.since_offset(&offsets);
                    let msgs = since.as_messages();
                    assert(msgs@ =~= Map::new(
                        |k: Seq<char>| offsets@.contains_key(k) && offsets@[k] is Some && logs@.contains_key(k),
                        |k: Seq<char>| skip_below(logs@[k].0, offsets@[k].unwrap().offset),
                    ));
                    let next = msg_id.increment();
                    let reply = KafkaReply { msg_id: next, in_reply_to: request_id, payload: KafkaPayload::PollOk { msgs } };
                    (KafkaNode::Initialised { msg_id: next, node_id, node_ids, logs }, Some(reply))
                },
                KafkaPayload::CommitOffsets { offsets } => {
                    logs.commit_offsets(&offsets);
                    let next = msg_id.increment();
                    let reply = KafkaReply { msg_id: next, in_reply_to: request_id, payload: KafkaPayload::CommitOffsetsOk };
                    (KafkaNode::Initialised { msg_id: next, node_id, node_ids, logs }, Some(reply))
                },
                KafkaPayload::ListCommittedOffsets { keys } => {
                    let offsets = logs.list_committed_offsets(&keys);
                    let next = msg_id.increment();
                    let reply = KafkaReply {
                        msg_id: next,
                        in_reply_to: request_id,
                        payload: KafkaPayload::ListCommittedOffsetsOk { offsets },
                    };
                    (KafkaNode::Initialised { msg_id: next, node_id, node_ids, logs }, Some(reply))
                },
                _ => (KafkaNode::Initialised { msg_id, node_id, node_ids, logs }, None),
            },
        }
    }
}

} // verus!
