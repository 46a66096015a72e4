//! The broadcast node: a state machine that takes one request at a time and
//! yields its next state and, at most, one reply; and the gossip round that
//! tells each neighbour what it is not yet known to hold.
use std::collections::HashSet;
use vstd::prelude::*;
use crate::estimates::{recorded, IdsSeenByNeighbours};
use crate::ids::{MessageId, NodeId};
use crate::topology::{derive_neighbours, neighbours_of};
use crate::values::{copy_values, difference, extend_values, prefix_values, singleton};

verus! {

broadcast use vstd::std_specs::hash::group_hash_axioms;

/// The payloads that a broadcast node takes and gives. A set of nodes is held
/// as the set of their indices. The topology that a `Topology` request offers
/// is not consulted, so it carries nothing here.
#[derive(Debug)]
pub enum BroadcastPayload {
    Init { node_id: NodeId, node_ids: HashSet<usize> },
    InitOk,
    Broadcast { message: usize },
    BroadcastOk,
    Read,
    ReadOk { messages: HashSet<usize> },
    Topology,
    TopologyOk,
    Gossip { ids_to_see: HashSet<usize> },
    GossipOk { ids_to_see: HashSet<usize> },
}

/// A reply to the sender of a request.
#[derive(Debug)]
pub struct Reply {
    pub msg_id: Option<MessageId>,
    pub in_reply_to: Option<MessageId>,
    pub payload: BroadcastPayload,
}

/// A gossip message for one neighbour, sent without a sequence number.
#[derive(Debug)]
pub struct Outgoing {
    pub dest: NodeId,
    pub ids_to_see: HashSet<usize>,
}

/// The four stages of a node's life.
#[derive(Clone, Copy, Debug, PartialEq, Eq, Structural)]
pub enum Stage {
    Uninitialised,
    Initialised,
    Networked,
    Broadcasting,
}

/// A broadcast node. Each stage holds the fields that are valid in it.
#[derive(Debug)]
pub enum BroadcastNode {
    Uninitialised { msg_id: MessageId },
    Initialised { msg_id: MessageId, node_id: NodeId, node_ids: HashSet<usize> },
    Networked {
        msg_id: MessageId,
        node_id: NodeId,
        node_ids: HashSet<usize>,
        ids_seen_by_neighbours: IdsSeenByNeighbours,
    },
    Broadcasting {
        msg_id: MessageId,
        node_id: NodeId,
        node_ids: HashSet<usize>,
        ids_seen: HashSet<usize>,
        ids_seen_by_neighbours: IdsSeenByNeighbours,
    },
}

/// The estimates that a node starts with once its neighbours are known.
pub open spec fn fresh_estimates(neighbours: Set<usize>) -> Map<usize, Set<usize>> {
    Map::new(|k: usize| neighbours.contains(k), |k: usize| Set::<usize>::empty())
}

/// The estimates after a node learnt that `sender` holds `ids`. A sender that
/// is not a cluster node is ignored.
pub open spec fn recorded_from(m: Map<usize, Set<usize>>, sender: Option<NodeId>, ids: Set<usize>) -> Map<
    usize,
    Set<usize>,
> {
    match sender {
        Some(s) => recorded(m, s.index, ids),
        None => m,
    }
}

/// A reply that carries the sequence number `id` and answers `request_id`.
pub open spec fn is_sequenced(reply: Option<Reply>, id: usize, request_id: Option<MessageId>) -> bool {
    reply matches Some(rp) && rp.msg_id == Some(MessageId { id }) && rp.in_reply_to == request_id
}

/// An unsequenced `gossip_ok` reply that carries `ids`.
pub open spec fn is_gossip_ok(reply: Option<Reply>, ids: Set<usize>) -> bool {
    match reply {
        Some(rp) => {
            &&& rp.msg_id is None
            &&& rp.in_reply_to is None
            &&& match rp.payload {
                BroadcastPayload::GossipOk { ids_to_see } => ids_to_see@ == ids,
                _ => false,
            }
        },
        None => false,
    }
}

/// A `read_ok` reply that carries `ids`.
pub open spec fn is_read_ok(reply: Option<Reply>, ids: Set<usize>) -> bool {
    match reply {
        Some(rp) => match rp.payload {
            BroadcastPayload::ReadOk { messages } => messages@ == ids,
            _ => false,
        },
        None => false,
    }
}

/// The payload of a reply, where there is one.
pub open spec fn reply_payload_is(reply: Option<Reply>, p: BroadcastPayload) -> bool {
    reply matches Some(rp) && rp.payload == p
}

/// `new` is a broadcasting node with the given counter, identity and
/// membership, and with the given seen values and estimates.
pub open spec fn is_broadcasting(
    new: BroadcastNode,
    counter: usize,
    node_id: NodeId,
    node_ids: HashSet<usize>,
    seen: Set<usize>,
    estimates: Map<usize, Set<usize>>,
) -> bool {
    new matches BroadcastNode::Broadcasting {
        msg_id: m,
        node_id: n,
        node_ids: ns,
        ids_seen: s,
        ids_seen_by_neighbours: e,
    } && m.id == counter && n == node_id && ns == node_ids && s@ == seen && e@ == estimates
}

/// What handling `payload` from `sender` (whose request carried `request_id`)
/// does to node `old`: `new` is the next state and `reply` the reply.
pub open spec fn handled(
    old: BroadcastNode,
    sender: Option<NodeId>,
    request_id: Option<MessageId>,
    payload: BroadcastPayload,
    new: BroadcastNode,
    reply: Option<Reply>,
) -> bool {
    match old {
        BroadcastNode::Uninitialised { msg_id } => match payload {
            BroadcastPayload::Init { node_id, node_ids } => {
                &&& new == BroadcastNode::Initialised {
                    msg_id: MessageId { id: (msg_id.id + 1) as usize },
                    node_id,
                    node_ids,
                }
                &&& is_sequenced(reply, (msg_id.id + 1) as usize, request_id)
                &&& reply_payload_is(reply, BroadcastPayload::InitOk)
            },
            _ => new == old && reply is None,
        },
        BroadcastNode::Initialised { msg_id, node_id, node_ids } => match payload {
            BroadcastPayload::Topology => {
                &&& new matches BroadcastNode::Networked {
                    msg_id: m,
                    node_id: n,
                    node_ids: ns,
                    ids_seen_by_neighbours: e,
                } && m.id == msg_id.id + 1 && n == node_id && ns == node_ids
                    && e@ == fresh_estimates(neighbours_of(node_ids@, node_id.index))
                &&& is_sequenced(reply, (msg_id.id + 1) as usize, request_id)
                &&& reply_payload_is(reply, BroadcastPayload::TopologyOk)
            },
            _ => new == old && reply is None,
        },
        BroadcastNode::Networked { msg_id, node_id, node_ids, ids_seen_by_neighbours } => match payload {
            BroadcastPayload::Broadcast { message } => {
                &&& is_broadcasting(
                    new,
                    (msg_id.id + 1) as usize,
                    node_id,
                    node_ids,
                    set![message],
                    ids_seen_by_neighbours@,
                )
                &&& is_sequenced(reply, (msg_id.id + 1) as usize, request_id)
                &&& reply_payload_is(reply, BroadcastPayload::BroadcastOk)
            },
            BroadcastPayload::Read => {
                &&& is_broadcasting(
                    new,
                    (msg_id.id + 1) as usize,
                    node_id,
                    node_ids,
                    Set::empty(),
                    ids_seen_by_neighbours@,
                )
                &&& is_sequenced(reply, (msg_id.id + 1) as usize, request_id)
                &&& is_read_ok(reply, Set::empty())
            },
            BroadcastPayload::Gossip { ids_to_see } => {
                &&& is_broadcasting(
                    new,
                    msg_id.id,
                    node_id,
                    node_ids,
                    ids_to_see@,
                    recorded_from(ids_seen_by_neighbours@, sender, ids_to_see@),
                )
                &&& is_gossip_ok(reply, ids_to_see@)
            },
            _ => new == old && reply is None,
        },
        BroadcastNode::Broadcasting {
            msg_id,
            node_id,
            node_ids,
            ids_seen,
            ids_seen_by_neighbours,
        } => match payload {
            BroadcastPayload::Broadcast { message } => {
                &&& is_broadcasting(
                    new,
                    (msg_id.id + 1) as usize,
                    node_id,
                    node_ids,
                    ids_seen@.insert(message),
                    ids_seen_by_neighbours@,
                )
                &&& is_sequenced(reply, (msg_id.id + 1) as usize, request_id)
                &&& reply_payload_is(reply, BroadcastPayload::BroadcastOk)
            },
            BroadcastPayload::Read => {
                &&& is_broadcasting(
                    new,
                    (msg_id.id + 1) as usize,
                    node_id,
                    node_ids,
                    ids_seen@,
                    ids_seen_by_neighbours@,
                )
                &&& is_sequenced(reply, (msg_id.id + 1) as usize, request_id)
                &&& is_read_ok(reply, ids_seen@)
            },
            BroadcastPayload::Gossip { ids_to_see } => {
                &&& is_broadcasting(
                    new,
                    msg_id.id,
                    node_id,
                    node_ids,
                    ids_seen@.union(ids_to_see@),
                    ids_seen_by_neighbours@,
                )
                &&& if ids_seen@.difference(ids_to_see@).is_empty() {
                    reply is None
                } else {
                    is_gossip_ok(reply, ids_seen@.difference(ids_to_see@))
                }
            },
            BroadcastPayload::GossipOk { ids_to_see } => {
                &&& is_broadcasting(
                    new,
                    msg_id.id,
                    node_id,
                    node_ids,
                    ids_seen@.union(ids_to_see@),
                    recorded_from(ids_seen_by_neighbours@, sender, ids_to_see@),
                )
                &&& reply is None
            },
            _ => new == old && reply is None,
        },
    }
}

/// Merges values that a peer announced into `ids_seen`, and gives back the
/// values that the peer did not announce and this node holds.
pub fn merge_incoming(ids_seen: &mut HashSet<usize>, values: &HashSet<usize>) -> (missing: HashSet<
    usize,
>)
    ensures
        final(ids_seen)@ == old(ids_seen)@.union(values@),
        missing@ == old(ids_seen)@.difference(values@),
{
    let missing = difference(ids_seen, values);
    let new = difference(values, ids_seen);
    extend_values(ids_seen, &new);
    assert(final(ids_seen)@ =~= old(ids_seen)@.union(values@));
    missing
}

/// `out` is a gossip round of a node that has seen `seen` and holds the
/// estimates `est`: one message to each neighbour that lacks something, with
/// exactly what it lacks, and no other message.
pub open spec fn is_gossip_round(seen: Set<usize>, est: Map<usize, Set<usize>>, out: Seq<Outgoing>) -> bool {
    &&& forall|k: int|
        0 <= k < out.len() ==> {
            &&& est.contains_key(#[trigger] out[k].dest.index)
            &&& out[k].ids_to_see@ == seen.difference(est[out[k].dest.index])
            &&& !out[k].ids_to_see@.is_empty()
        }
    &&& forall|n: usize|
        est.contains_key(n) && !(#[trigger] seen.difference(est[n])).is_empty() ==> exists|k: int|
            0 <= k < out.len() && out[k].dest.index == n
    &&& forall|k1: int, k2: int|
        0 <= k1 < out.len() && 0 <= k2 < out.len() && k1 != k2 ==> #[trigger] out[k1].dest.index
            != #[trigger] out[k2].dest.index
}

/// The gossip round of `node`: none before it broadcasts.
pub open spec fn gossip_round_of(node: BroadcastNode, out: Seq<Outgoing>) -> bool {
    match node {
        BroadcastNode::Broadcasting { ids_seen, ids_seen_by_neighbours, .. } => is_gossip_round(
            ids_seen@,
            ids_seen_by_neighbours@,
            out,
        ),
        _ => out.len() == 0,
    }
}

pub proof fn lemma_prefix_fresh(items: Seq<&usize>, i: int)
    requires
        0 <= i < items.len(),
        items.no_duplicates(),
    ensures
        !prefix_values(items, i).contains(*items[i]),
{
    if prefix_values(items, i).contains(*items[i]) {
        let j = choose|j: int| 0 <= j < i && *items[j] == *items[i];
        assert(items[j] == items[i]);
    }
}

/// The messages of one gossip round, computed from the values seen and the
/// estimates.
pub fn gossip_round(ids_seen: &HashSet<usize>, estimates: &IdsSeenByNeighbours) -> (out: Vec<Outgoing>)
    requires
        estimates.wf(),
    ensures
        is_gossip_round(ids_seen@, estimates@, out@),
{
    let neighbours = estimates.neighbours();
    let mut out: Vec<Outgoing> = Vec::new();
    let ghost mut done: Set<usize> = Set::empty();
    for x in it: neighbours.iter()
        invariant
            neighbours@ == estimates@.dom(),
            it.seq().unref().to_set() == neighbours@,
            it.seq().no_duplicates(),
            done == prefix_values(it.seq(), it.index()),
            forall|k: int|
                0 <= k < out@.len() ==> {
                    &&& done.contains(#[trigger] out@[k].dest.index)
                    &&& out@[k].ids_to_see@ == ids_seen@.difference(estimates@[out@[k].dest.index])
                    &&& !out@[k].ids_to_see@.is_empty()
                },
            forall|n: usize|
                done.contains(n) && !(#[trigger] ids_seen@.difference(estimates@[n])).is_empty()
                    ==> exists|k: int| 0 <= k < out@.len() && out@[k].dest.index == n,
            forall|k1: int, k2: int|
                0 <= k1 < out@.len() && 0 <= k2 < out@.len() && k1 != k2
                    ==> #[trigger] out@[k1].dest.index != #[trigger] out@[k2].dest.index,
            it.index() == it.seq().len() ==> done == neighbours@,
    {
        proof {
            crate::values::lemma_prefix_step(it.seq(), it.index());
            crate::values::lemma_prefix_whole(it.seq(), neighbours@);
            lemma_prefix_fresh(it.seq(), it.index());
        }
        let n = *x;
        let ids_to_see = estimates.ids_to_send(ids_seen, n);
        proof {
            assert(it.seq().unref().contains(n));
            assert(estimates@.contains_key(n));
            done = done.insert(n);
        }
        if !ids_to_see.is_empty() {
            let ghost before = out@;
            out.push(Outgoing { dest: NodeId::new(n), ids_to_see });
            assert forall|m: usize|
                done.contains(m) && !(#[trigger] ids_seen@.difference(estimates@[m])).is_empty()
                implies exists|k: int| 0 <= k < out@.len() && out@[k].dest.index == m by {
                if m == n {
                    assert(out@[before.len() as int].dest.index == m);
                } else {
                    let k = choose|k: int| 0 <= k < before.len() && before[k].dest.index == m;
                    assert(out@[k].dest.index == m);
                }
            }
        }
    }
    out
}

/// The payloads that each stage expects.
pub open spec fn expected(node: BroadcastNode, payload: BroadcastPayload) -> bool {
    match node {
        BroadcastNode::Uninitialised { .. } => payload is Init,
        BroadcastNode::Initialised { .. } => payload is Topology,
        BroadcastNode::Networked { .. } => payload is Broadcast || payload is Read || payload is Gossip,
        BroadcastNode::Broadcasting { .. } => payload is Broadcast || payload is Read || payload is Gossip
            || payload is GossipOk,
    }
}

/// The requests that move the sequence counter on: the acknowledged ones.
pub open spec fn moves_counter(node: BroadcastNode, payload: BroadcastPayload) -> bool {
    match node {
        BroadcastNode::Uninitialised { .. } => payload is Init,
        BroadcastNode::Initialised { .. } => payload is Topology,
        BroadcastNode::Networked { .. } => payload is Broadcast || payload is Read,
        BroadcastNode::Broadcasting { .. } => payload is Broadcast || payload is Read,
    }
}

/// A payload that the node's stage does not expect leaves the node as it was
/// and has no reply.
pub proof fn violation_changes_nothing(
    old: BroadcastNode,
    sender: Option<NodeId>,
    request_id: Option<MessageId>,
    payload: BroadcastPayload,
    new: BroadcastNode,
    reply: Option<Reply>,
)
    requires
        !expected(old, payload),
        handled(old, sender, request_id, payload, new, reply),
    ensures
        new == old,
        reply is None,
{
}

impl BroadcastNode {
    /// The node's sequence counter.
    pub open spec fn counter(self) -> usize {
        match self {
            BroadcastNode::Uninitialised { msg_id } => msg_id.id,
            BroadcastNode::Initialised { msg_id, .. } => msg_id.id,
            BroadcastNode::Networked { msg_id, .. } => msg_id.id,
            BroadcastNode::Broadcasting { msg_id, .. } => msg_id.id,
        }
    }

    /// The values that the node has seen; none before it broadcasts.
    pub open spec fn seen(self) -> Set<usize> {
        match self {
            BroadcastNode::Broadcasting { ids_seen, .. } => ids_seen@,
            _ => Set::empty(),
        }
    }

    /// What the node believes each neighbour holds; nothing before its
    /// neighbours are known.
    pub open spec fn estimates(self) -> Map<usize, Set<usize>> {
        match self {
            BroadcastNode::Networked { ids_seen_by_neighbours, .. } => ids_seen_by_neighbours@,
            BroadcastNode::Broadcasting { ids_seen_by_neighbours, .. } => ids_seen_by_neighbours@,
            _ => Map::empty(),
        }
    }

    pub open spec fn wf(self) -> bool {
        match self {
            BroadcastNode::Networked { ids_seen_by_neighbours, .. } => ids_seen_by_neighbours.wf(),
            BroadcastNode::Broadcasting { ids_seen_by_neighbours, .. } => ids_seen_by_neighbours.wf(),
            _ => true,
        }
    }

    /// A node that has received nothing yet.
    pub fn new() -> (r: BroadcastNode)
        ensures
            r == (BroadcastNode::Uninitialised { msg_id: MessageId { id: 0 } }),
    {
        BroadcastNode::Uninitialised { msg_id: MessageId::new(0) }
    }

    /// The node's identity, once it is initialised.
    pub fn id(&self) -> (r: Option<NodeId>)
        ensures
            r == (match *self {
                BroadcastNode::Uninitialised { .. } => None,
                BroadcastNode::Initialised { node_id, .. } => Some(node_id),
                BroadcastNode::Networked { node_id, .. } => Some(node_id),
                BroadcastNode::Broadcasting { node_id, .. } => Some(node_id),
            }),
    {
        match self {
            BroadcastNode::Uninitialised { .. } => None,
            BroadcastNode::Initialised { node_id, .. } => Some(*node_id),
            BroadcastNode::Networked { node_id, .. } => Some(*node_id),
            BroadcastNode::Broadcasting { node_id, .. } => Some(*node_id),
        }
    }

    /// The node's sequence counter.
    pub fn msg_id(&self) -> (r: MessageId)
        ensures
            r.id == self.counter(),
    {
        match self {
            BroadcastNode::Uninitialised { msg_id } => *msg_id,
            BroadcastNode::Initialised { msg_id, .. } => *msg_id,
            BroadcastNode::Networked { msg_id, .. } => *msg_id,
            BroadcastNode::Broadcasting { msg_id, .. } => *msg_id,
        }
    }

    /// Handles one request. `sender` is the requester when it is a cluster
    /// node, and `request_id` the sequence number that its request carried.
    /// A payload that the node's stage does not expect is a protocol
    /// violation: the node stays as it is and sends no reply.
    pub fn handle(self, sender: Option<NodeId>, request_id: Option<MessageId>, payload: BroadcastPayload) -> (r: (
        BroadcastNode,
        Option<Reply>,
    ))
        requires
            self.wf(),
            moves_counter(self, payload) ==> self.counter() < usize::MAX,
        ensures
            r.0.wf(),
            handled(self, sender, request_id, payload, r.0, r.1),
    {
        match self {
            BroadcastNode::Uninitialised { msg_id } => match payload {
                BroadcastPayload::Init { node_id, node_ids } => {
                    let next = msg_id.increment();
                    let reply = Reply {
                        msg_id: Some(next),
                        in_reply_to: request_id,
                        payload: BroadcastPayload::InitOk,
                    };
                    (BroadcastNode::Initialised { msg_id: next, node_id, node_ids }, Some(reply))
                },
                _ => (BroadcastNode::Uninitialised { msg_id }, None),
            },
            BroadcastNode::Initialised { msg_id, node_id, node_ids } => match payload {
                BroadcastPayload::Topology => {
                    let neighbours = derive_neighbours(&node_ids, node_id);
                    let ids_seen_by_neighbours = IdsSeenByNeighbours::new(&neighbours);
                    let next = msg_id.increment();
                    let reply = Reply {
                        msg_id: Some(next),
                        in_reply_to: request_id,
                        payload: BroadcastPayload::TopologyOk,
                    };
                    (
                        BroadcastNode::Networked {
                            msg_id: next,
                            node_id,
                            node_ids,
                            ids_seen_by_neighbours,
                        },
                        Some(reply),
                    )
                },
                _ => (BroadcastNode::Initialised { msg_id, node_id, node_ids }, None),
            },
            BroadcastNode::Networked {
                msg_id,
                node_id,
                node_ids,
                mut ids_seen_by_neighbours,
            } => match payload {
                BroadcastPayload::Broadcast { message } => {
                    let next = msg_id.increment();
                    let reply = Reply {
                        msg_id: Some(next),
                        in_reply_to: request_id,
                        payload: BroadcastPayload::BroadcastOk,
                    };
                    let node = BroadcastNode::Broadcasting {
                        msg_id: next,
                        node_id,
                        node_ids,
                        ids_seen: singleton(message),
                        ids_seen_by_neighbours,
                    };
                    (node, Some(reply))
                },
                BroadcastPayload::Read => {
                    let next = msg_id.increment();
                    let reply = Reply {
                        msg_id: Some(next),
                        in_reply_to: request_id,
                        payload: BroadcastPayload::ReadOk { messages: HashSet::new() },
                    };
                    let node = BroadcastNode::Broadcasting {
                        msg_id: next,
                        node_id,
                        node_ids,
                        ids_seen: HashSet::new(),
                        ids_seen_by_neighbours,
                    };
                    (node, Some(reply))
                },
                BroadcastPayload::Gossip { ids_to_see } => {
                    if let Some(s) = sender {
                        ids_seen_by_neighbours.update(s.index, &ids_to_see);
                    }
                    let echoed = copy_values(&ids_to_see);
                    let reply = Reply {
                        msg_id: None,
                        in_reply_to: None,
                        payload: BroadcastPayload::GossipOk { ids_to_see: echoed },
                    };
                    let node = BroadcastNode::Broadcasting {
                        msg_id,
                        node_id,
                        node_ids,
                        ids_seen: ids_to_see,
                        ids_seen_by_neighbours,
                    };
                    (node, Some(reply))
                },
                _ => {
                    let node = BroadcastNode::Networked {
                        msg_id,
                        node_id,
                        node_ids,
                        ids_seen_by_neighbours,
                    };
                    (node, None)
                },
            },
            BroadcastNode::Broadcasting {
                msg_id,
                node_id,
                node_ids,
                mut ids_seen,
                mut ids_seen_by_neighbours,
            } => match payload {
                BroadcastPayload::Broadcast { message } => {
                    ids_seen.insert(message);
                    let next = msg_id.increment();
                    let reply = Reply {
                        msg_id: Some(next),
                        in_reply_to: request_id,
                        payload: BroadcastPayload::BroadcastOk,
                    };
                    let node = BroadcastNode::Broadcasting {
                        msg_id: next,
                        node_id,
                        node_ids,
                        ids_seen,
                        ids_seen_by_neighbours,
                    };
                    (node, Some(reply))
                },
                BroadcastPayload::Read => {
                    let next = msg_id.increment();
                    let snapshot = copy_values(&ids_seen);
                    let reply = Reply {
                        msg_id: Some(next),
                        in_reply_to: request_id,
                        payload: BroadcastPayload::ReadOk { messages: snapshot },
                    };
                    let node = BroadcastNode::Broadcasting {
                        msg_id: next,
                        node_id,
                        node_ids,
                        ids_seen,
                        ids_seen_by_neighbours,
                    };
                    (node, Some(reply))
                },
                BroadcastPayload::Gossip { ids_to_see } => {
                    let missing = merge_incoming(&mut ids_seen, &ids_to_see);
                    let reply = if missing.is_empty() {
                        None
                    } else {
                        Some(
                            Reply {
                                msg_id: None,
                                in_reply_to: None,
                                payload: BroadcastPayload::GossipOk { ids_to_see: missing },
                            },
                        )
                    };
                    let node = BroadcastNode::Broadcasting {
                        msg_id,
                        node_id,
                        node_ids,
                        ids_seen,
                        ids_seen_by_neighbours,
                    };
                    (node, reply)
                },
                BroadcastPayload::GossipOk { ids_to_see } => {
                    extend_values(&mut ids_seen, &ids_to_see);
                    if let Some(s) = sender {
                        ids_seen_by_neighbours.update(s.index, &ids_to_see);
                    }
                    let node = BroadcastNode::Broadcasting {
                        msg_id,
                        node_id,
                        node_ids,
                        ids_seen,
                        ids_seen_by_neighbours,
                    };
                    (node, None)
                },
                _ => {
                    let node = BroadcastNode::Broadcasting {
                        msg_id,
                        node_id,
                        node_ids,
                        ids_seen,
                        ids_seen_by_neighbours,
                    };
                    (node, None)
                },
            },
        }
    }

    /// One gossip round: for each neighbour that is not known to hold every
    /// value this node has seen, one message with the values it lacks. A
    /// neighbour with nothing to learn gets no message, and a node that is not
    /// broadcasting yet sends nothing.
    pub fn gossip(&self) -> (out: Vec<Outgoing>)
        requires
            self.wf(),
        ensures
            gossip_round_of(*self, out@),
    {
        match self {
            BroadcastNode::Broadcasting { ids_seen, ids_seen_by_neighbours, .. } => {
                gossip_round(ids_seen, ids_seen_by_neighbours)
            },
            _ => Vec::new(),
        }
    }

    /// Whether the node's stage expects `payload`; any other payload is a
    /// protocol violation, which `handle` ignores.
    pub fn expects(&self, payload: &BroadcastPayload) -> (r: bool)
        ensures
            r == expected(*self, *payload),
    {
        match (self, payload) {
            (BroadcastNode::Uninitialised { .. }, BroadcastPayload::Init { .. }) => true,
            (BroadcastNode::Initialised { .. }, BroadcastPayload::Topology) => true,
            (BroadcastNode::Networked { .. }, BroadcastPayload::Broadcast { .. }) => true,
            (BroadcastNode::Networked { .. }, BroadcastPayload::Read) => true,
            (BroadcastNode::Networked { .. }, BroadcastPayload::Gossip { .. }) => true,
            (BroadcastNode::Broadcasting { .. }, BroadcastPayload::Broadcast { .. }) => true,
            (BroadcastNode::Broadcasting { .. }, BroadcastPayload::Read) => true,
            (BroadcastNode::Broadcasting { .. }, BroadcastPayload::Gossip { .. }) => true,
            (BroadcastNode::Broadcasting { .. }, BroadcastPayload::GossipOk { .. }) => true,
            _ => false,
        }
    }

    /// Whether handling `payload` leaves the sequence counter in range: false
    /// only where the request would move a counter that is at its largest.
    pub fn can_handle(&self, payload: &BroadcastPayload) -> (r: bool)
        ensures
            r == (moves_counter(*self, *payload) ==> self.counter() < usize::MAX),
    {
        let moves = match (self, payload) {
            (BroadcastNode::Uninitialised { .. }, BroadcastPayload::Init { .. }) => true,
            (BroadcastNode::Initialised { .. }, BroadcastPayload::Topology) => true,
            (BroadcastNode::Networked { .. }, BroadcastPayload::Broadcast { .. }) => true,
            (BroadcastNode::Networked { .. }, BroadcastPayload::Read) => true,
            (BroadcastNode::Broadcasting { .. }, BroadcastPayload::Broadcast { .. }) => true,
            (BroadcastNode::Broadcasting { .. }, BroadcastPayload::Read) => true,
            _ => false,
        };
        !moves || self.msg_id().id < usize::MAX
    }

    /// The stage the node is in.
    pub fn stage(&self) -> (r: Stage)
        ensures
            r == (match *self {
                BroadcastNode::Uninitialised { .. } => Stage::Uninitialised,
                BroadcastNode::Initialised { .. } => Stage::Initialised,
                BroadcastNode::Networked { .. } => Stage::Networked,
                BroadcastNode::Broadcasting { .. } => Stage::Broadcasting,
            }),
    {
        match self {
            BroadcastNode::Uninitialised { .. } => Stage::Uninitialised,
            BroadcastNode::Initialised { .. } => Stage::Initialised,
            BroadcastNode::Networked { .. } => Stage::Networked,
            BroadcastNode::Broadcasting { .. } => Stage::Broadcasting,
        }
    }
}

} // verus!
