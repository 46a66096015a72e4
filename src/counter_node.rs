//! A node that keeps a grow-only counter: each node adds to its own count,
//! and nodes merge each other's counts by gossip.
use std::collections::HashSet;
use vstd::prelude::*;
use crate::counter::{pointwise_max, total, GrowOnlyCounter};
use crate::ids::{MessageId, NodeId};
use crate::values::prefix_values;

verus! {

broadcast use vstd::std_specs::hash::group_hash_axioms;

#[derive(Debug)]
pub enum CounterPayload {
    Init { node_id: NodeId, node_ids: HashSet<usize> },
    InitOk,
    Gossip { other_counts: Vec<u32> },
    GossipOk { updated_counts: Vec<u32> },
    Add { delta: u32 },
    AddOk,
    Read,
    ReadOk { value: u32 },
}

/// A reply to the sender of a request.
#[derive(Debug)]
pub struct CounterReply {
    pub msg_id: MessageId,
    pub in_reply_to: Option<MessageId>,
    pub payload: CounterPayload,
}

/// The counts that a node gossips to another node.
#[derive(Debug)]
pub struct CounterGossip {
    pub dest: NodeId,
    pub other_counts: Vec<u32>,
}

#[derive(Debug)]
pub enum CounterNode {
    Uninitialised { msg_id: MessageId },
    Initialised {
        msg_id: MessageId,
        node_id: NodeId,
        node_ids: HashSet<usize>,
        counter: GrowOnlyCounter,
    },
}

/// A reply with sequence number `id` to the request `request_id`.
pub open spec fn counter_reply_is(reply: Option<CounterReply>, id: usize, request_id: Option<MessageId>) -> bool {
    reply matches Some(rp) && rp.msg_id.id == id && rp.in_reply_to == request_id
}

/// `new` is an initialised node with these fields and counts.
pub open spec fn counter_node_is(
    new: CounterNode,
    msg_id: MessageId,
    node_id: NodeId,
    node_ids: HashSet<usize>,
    counts: Seq<u32>,
) -> bool {
    new matches CounterNode::Initialised { msg_id: m, node_id: n, node_ids: ns, counter: c }
        && m == msg_id && n == node_id && ns == node_ids && c@ == counts
}

/// Handling `payload` takes `old` to `new` with `reply`.
pub open spec fn counter_handled(
    old: CounterNode,
    request_id: Option<MessageId>,
    payload: CounterPayload,
    new: CounterNode,
    reply: Option<CounterReply>,
) -> bool {
    match old {
        CounterNode::Uninitialised { msg_id } => match payload {
            CounterPayload::Init { node_id, node_ids } => {
                &&& counter_node_is(
                    new,
                    MessageId { id: (msg_id.id + 1) as usize },
                    node_id,
                    node_ids,
                    Seq::new(node_ids@.len(), |i: int| 0u32),
                )
                &&& counter_reply_is(reply, (msg_id.id + 1) as usize, request_id)
                &&& reply->0.payload is InitOk
            },
            _ => new == old && reply is None,
        },
        CounterNode::Initialised { msg_id, node_id, node_ids, counter } => match payload {
            CounterPayload::Add { delta } => {
                &&& counter_node_is(
                    new,
                    msg_id,
                    node_id,
                    node_ids,
                    counter@.update(node_id.index as int, (counter@[node_id.index as int] + delta) as u32),
                )
                &&& counter_reply_is(reply, msg_id.id, request_id)
                &&& reply->0.payload is AddOk
            },
            CounterPayload::Read => {
                &&& new == old
                &&& counter_reply_is(reply, msg_id.id, request_id)
                &&& reply->0.payload matches CounterPayload::ReadOk { value } && value == total(counter@)
            },
            CounterPayload::Gossip { other_counts } => {
                &&& counter_node_is(new, msg_id, node_id, node_ids, pointwise_max(counter@, other_counts@))
                &&& counter_reply_is(reply, msg_id.id, request_id)
                &&& reply->0.payload matches CounterPayload::GossipOk { updated_counts }
                    && updated_counts@ == pointwise_max(counter@, other_counts@)
            },
            CounterPayload::GossipOk { updated_counts } => {
                &&& counter_node_is(new, msg_id, node_id, node_ids, pointwise_max(counter@, updated_counts@))
                &&& reply is None
            },
            _ => new == old && reply is None,
        },
    }
}

/// What a request needs so that handling it cannot overflow: an `add` to
/// this node's own count, which must exist and stay within `u32`, and a
/// `read` of a sum that fits in `u32`.
pub open spec fn counter_request_ok(node: CounterNode, payload: CounterPayload) -> bool {
    match node {
        CounterNode::Uninitialised { msg_id } => payload is Init ==> msg_id.id < usize::MAX,
        CounterNode::Initialised { node_id, counter, .. } => match payload {
            CounterPayload::Add { delta } => node_id.index < counter@.len() && counter@[node_id.index as int]
                + delta <= u32::MAX,
            CounterPayload::Read => total(counter@) <= u32::MAX,
            _ => true,
        },
    }
}

impl CounterNode {
    pub fn new() -> (r: CounterNode)
        ensures
            r == (CounterNode::Uninitialised { msg_id: MessageId { id: 0 } }),
    {
        CounterNode::Uninitialised { msg_id: MessageId::new(0) }
    }

    /// The node's identity, once it is initialised.
    pub fn id(&self) -> (r: Option<NodeId>)
        ensures
            r == (match *self {
                CounterNode::Uninitialised { .. } => None,
                CounterNode::Initialised { node_id, .. } => Some(node_id),
            }),
    {
        match self {
            CounterNode::Uninitialised { .. } => None,
            CounterNode::Initialised { node_id, .. } => Some(*node_id),
        }
    }

    /// The node's sequence counter.
    pub fn msg_id(&self) -> (r: MessageId)
        ensures
            r == (match *self {
                CounterNode::Uninitialised { msg_id } => msg_id,
                CounterNode::Initialised { msg_id, .. } => msg_id,
            }),
    {
        match self {
            CounterNode::Uninitialised { msg_id } => *msg_id,
            CounterNode::Initialised { msg_id, .. } => *msg_id,
        }
    }

    /// Whether handling `payload` is free of overflow; see
    /// `counter_request_ok`.
    pub fn accepts(&self, payload: &CounterPayload) -> (r: bool)
        ensures
            r == counter_request_ok(*self, *payload),
    {
        match self {
            CounterNode::Uninitialised { msg_id } => match payload {
                CounterPayload::Init { .. } => msg_id.id < usize::MAX,
                _ => true,
            },
            CounterNode::Initialised { node_id, counter, .. } => match payload {
                CounterPayload::Add { delta } => {
                    let counts = counter.counts();
                    node_id.index < counts.len() && counts[node_id.index] <= u32::MAX - *delta
                },
                CounterPayload::Read => counter.fits_in_sum(),
                _ => true,
            },
        }
    }

    /// Handles one request; a payload that the node's stage does not expect
    /// changes nothing and has no reply.
    pub fn handle(self, request_id: Option<MessageId>, payload: CounterPayload) -> (r: (CounterNode, Option<CounterReply>))
        requires
            counter_request_ok(self, payload),
        ensures
            counter_handled(self, request_id, payload, r.0, r.1),
    {
        match self {
            CounterNode::Uninitialised { msg_id } => match payload {
                CounterPayload::Init { node_id, node_ids } => {
                    let counter = GrowOnlyCounter::new(node_ids.len());
                    let next = msg_id.increment();
                    let reply = CounterReply { msg_id: next, in_reply_to: request_id, payload: CounterPayload::InitOk };
                    (CounterNode::Initialised { msg_id: next, node_id, node_ids, counter }, Some(reply))
                },
                _ => (CounterNode::Uninitialised { msg_id }, None),
            },
            CounterNode::Initialised { msg_id, node_id, node_ids, mut counter } => match payload {
                CounterPayload::Add { delta } => {
                    counter.add_to_count(node_id.index, delta);
                    let reply = CounterReply { msg_id, in_reply_to: request_id, payload: CounterPayload::AddOk };
                    (CounterNode::Initialised { msg_id, node_id, node_ids, counter }, Some(reply))
                },
                CounterPayload::Read => {
                    let value = counter.sum();
                    let reply = CounterReply { msg_id, in_reply_to: request_id, payload: CounterPayload::ReadOk { value } };
                    (CounterNode::Initialised { msg_id, node_id, node_ids, counter }, Some(reply))
                },
                CounterPayload::Gossip { other_counts } => {
                    counter.update_counts(&other_counts);
                    let updated_counts = counter.copy_counts();
                    let reply = CounterReply {
                        msg_id,
                        in_reply_to: request_id,
                        payload: CounterPayload::GossipOk { updated_counts },
                    };
                    (CounterNode::Initialised { msg_id, node_id, node_ids, counter }, Some(reply))
                },
                CounterPayload::GossipOk { updated_counts } => {
                    counter.update_counts(&updated_counts);
                    (CounterNode::Initialised { msg_id, node_id, node_ids, counter }, None)
                },
                _ => (CounterNode::Initialised { msg_id, node_id, node_ids, counter }, None),
            },
        }
    }

    /// The counts of an initialised node, for every other member; nothing
    /// before initialisation.
    pub fn gossip(&self) -> (out: Vec<CounterGossip>)
        ensures
            match *self {
                CounterNode::Uninitialised { .. } => out@.len() == 0,
                CounterNode::Initialised { node_id, node_ids, counter, .. } => {
                    &&& forall|k: int| 0 <= k < out@.len() ==> {
                        &&& node_ids@.contains(#[trigger] out@[k].dest.index)
                        &&& out@[k].dest != node_id
                        &&& out@[k].other_counts@ == counter@
                    }
                    &&& forall|n: usize| #[trigger] node_ids@.contains(n) && n != node_id.index ==> exists|k: int|
                        0 <= k < out@.len() && out@[k].dest.index == n
                    &&& forall|k1: int, k2: int| 0 <= k1 < out@.len() && 0 <= k2 < out@.len() && k1 != k2
                        ==> #[trigger] out@[k1].dest != #[trigger] out@[k2].dest
                },
            },
    {
        let mut out: Vec<CounterGossip> = Vec::new();
        match self {
            CounterNode::Uninitialised { .. } => {},
            CounterNode::Initialised { node_id, node_ids, counter, .. } => {
                let ghost mut done: Set<usize> = Set::empty();
                for x in it: node_ids.iter()
                    invariant
                        it.seq().unref().to_set() == node_ids@,
                        it.seq().no_duplicates(),
                        done == prefix_values(it.seq(), it.index()),
                        forall|k: int| 0 <= k < out@.len() ==> {
                            &&& done.contains(#[trigger] out@[k].dest.index)
                            &&& out@[k].dest != *node_id
                            &&& out@[k].other_counts@ == counter@
                        },
                        forall|n: usize| #[trigger] done.contains(n) && n != node_id.index ==> exists|k: int|
                            0 <= k < out@.len() && out@[k].dest.index == n,
                        forall|k1: int, k2: int| 0 <= k1 < out@.len() && 0 <= k2 < out@.len() && k1 != k2
                            ==> #[trigger] out@[k1].dest != #[trigger] out@[k2].dest,
                        it.index() == it.seq().len() ==> done == node_ids@,
                {
                    proof {
                        crate::values::lemma_prefix_step(it.seq(), it.index());
                        crate::values::lemma_prefix_whole(it.seq(), node_ids@);
                        crate::broadcast::lemma_prefix_fresh(it.seq(), it.index());
                    }
                    let n = *x;
                    proof {
                        done = done.insert(n);
                    }
                    if n != node_id.index {
                        let ghost before = out@;
                        out.push(CounterGossip { dest: NodeId::new(n), other_counts: counter.copy_counts() });
                        assert forall|m: usize| #[trigger] done.contains(m) && m != node_id.index
                            implies exists|k: int| 0 <= k < out@.len() && out@[k].dest.index == m by {
                            if m == n {
                                assert(out@[before.len() as int].dest.index == m);
                            } else {
                                let k = choose|k: int| 0 <= k < before.len() && before[k].dest.index == m;
                                assert(out@[k].dest.index == m);
                            }
                        }
                    }
                }
            },
        }
        out
    }
}

} // verus!
