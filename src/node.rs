//! A node that serves several workloads at once: `echo` and `generate` once
//! initialised, and broadcast with gossip. It may take broadcasts before it
//! knows its neighbours, and gossips only once it knows them and has seen a
//! value or been read.
use std::collections::HashSet;
use vstd::prelude::*;
use crate::broadcast::{
    fresh_estimates, gossip_round, is_gossip_round, merge_incoming, recorded_from, Outgoing,
};
use crate::estimates::IdsSeenByNeighbours;
use crate::ids::{MessageId, NodeId};
use crate::topology::{derive_neighbours, neighbours_of};
use crate::unique_ids_node::{fresh_id, is_v4};
use crate::values::{copy_values, extend_values, singleton};

verus! {

broadcast use vstd::std_specs::hash::group_hash_axioms;

#[derive(Debug)]
pub enum Payload {
    Init { node_id: NodeId, node_ids: HashSet<usize> },
    InitOk,
    Echo { echo: String },
    EchoOk { echo: String },
    Generate,
    GenerateOk { id: u128 },
    Broadcast { message: usize },
    BroadcastOk,
    Read,
    ReadOk { messages: HashSet<usize> },
    Topology,
    TopologyOk,
    Gossip { ids_to_see: HashSet<usize> },
    GossipOk { ids_to_see: HashSet<usize> },
}

/// A reply to the sender of a request.
#[derive(Debug)]
pub struct Reply {
    pub msg_id: Option<MessageId>,
    pub in_reply_to: Option<MessageId>,
    pub payload: Payload,
}

#[derive(Debug)]
pub enum Node {
    Uninitialised { msg_id: MessageId },
    Initialised { msg_id: MessageId, node_id: NodeId, node_ids: HashSet<usize> },
    Networked {
        msg_id: MessageId,
        node_id: NodeId,
        node_ids: HashSet<usize>,
        ids_seen_by_neighbours: IdsSeenByNeighbours,
    },
    Broadcasting { msg_id: MessageId, node_id: NodeId, node_ids: HashSet<usize>, ids_seen: HashSet<usize> },
    NetworkedBroadcasting {
        msg_id: MessageId,
        node_id: NodeId,
        node_ids: HashSet<usize>,
        ids_seen: HashSet<usize>,
        ids_seen_by_neighbours: IdsSeenByNeighbours,
    },
}

/// A reply that carries these sequence numbers.
pub open spec fn replied(reply: Option<Reply>, msg_id: Option<MessageId>, in_reply_to: Option<MessageId>) -> bool {
    reply matches Some(rp) && rp.msg_id == msg_id && rp.in_reply_to == in_reply_to
}

/// The values that a reply's payload carries, where it carries a set.
pub open spec fn reply_values(reply: Option<Reply>) -> Option<Set<usize>> {
    match reply {
        Some(rp) => match rp.payload {
            Payload::ReadOk { messages } => Some(messages@),
            Payload::GossipOk { ids_to_see } => Some(ids_to_see@),
            _ => None,
        },
        None => None,
    }
}

pub open spec fn broadcasting_is(
    new: Node,
    msg_id: usize,
    node_id: NodeId,
    node_ids: HashSet<usize>,
    seen: Set<usize>,
) -> bool {
    new matches Node::Broadcasting { msg_id: m, node_id: n, node_ids: ns, ids_seen: s } && m.id == msg_id
        && n == node_id && ns == node_ids && s@ == seen
}

pub open spec fn networked_broadcasting_is(
    new: Node,
    msg_id: usize,
    node_id: NodeId,
    node_ids: HashSet<usize>,
    seen: Set<usize>,
    estimates: Map<usize, Set<usize>>,
) -> bool {
    new matches Node::NetworkedBroadcasting {
        msg_id: m,
        node_id: n,
        node_ids: ns,
        ids_seen: s,
        ids_seen_by_neighbours: e,
    } && m.id == msg_id && n == node_id && ns == node_ids && s@ == seen && e@ == estimates
}

/// The reply to gossip in a broadcasting stage: the values the sender did
/// not announce, unsequenced, or none if there are none.
pub open spec fn gossip_answer(reply: Option<Reply>, missing: Set<usize>) -> bool {
    if missing.is_empty() {
        reply is None
    } else {
        replied(reply, None, None) && reply->0.payload is GossipOk && reply_values(reply) == Some(missing)
    }
}

/// What handling `payload` from `sender` (whose request carried `request_id`)
/// does to node `old`. Acknowledgements carry the counter as it was before
/// the request moved it on.
pub open spec fn node_handled(
    old: Node,
    sender: Option<NodeId>,
    request_id: Option<MessageId>,
    payload: Payload,
    new: Node,
    reply: Option<Reply>,
) -> bool {
    match old {
        Node::Uninitialised { msg_id } => match payload {
            Payload::Init { node_id, node_ids } => {
                &&& new == Node::Initialised { msg_id: MessageId { id: (msg_id.id + 1) as usize }, node_id, node_ids }
                &&& replied(reply, Some(msg_id), request_id)
                &&& reply->0.payload is InitOk
            },
            _ => new == old && reply is None,
        },
        Node::Initialised { msg_id, node_id, node_ids } => {
            let next = (msg_id.id + 1) as usize;
            match payload {
                Payload::Echo { echo } => {
                    &&& new == Node::Initialised { msg_id: MessageId { id: next }, node_id, node_ids }
                    &&& replied(reply, Some(msg_id), request_id)
                    &&& reply->0.payload matches Payload::EchoOk { echo: e } && e@ == echo@
                },
                Payload::Generate => {
                    &&& new == Node::Initialised { msg_id: MessageId { id: next }, node_id, node_ids }
                    &&& replied(reply, Some(msg_id), request_id)
                    &&& reply->0.payload matches Payload::GenerateOk { id } && is_v4(id)
                },
                Payload::Topology => {
                    &&& new matches Node::Networked {
                        msg_id: m,
                        node_id: n,
                        node_ids: ns,
                        ids_seen_by_neighbours: e,
                    } && m.id == next && n == node_id && ns == node_ids && e.wf()
                        && e@ == fresh_estimates(neighbours_of(node_ids@, node_id.index))
                    &&& replied(reply, Some(msg_id), request_id)
                    &&& reply->0.payload is TopologyOk
                },
                Payload::Broadcast { message } => {
                    &&& broadcasting_is(new, next, node_id, node_ids, set![message])
                    &&& replied(reply, Some(msg_id), request_id)
                    &&& reply->0.payload is BroadcastOk
                },
                _ => new == old && reply is None,
            }
        },
        Node::Broadcasting { msg_id, node_id, node_ids, ids_seen } => {
            let next = (msg_id.id + 1) as usize;
            match payload {
                Payload::Broadcast { message } => {
                    &&& broadcasting_is(new, next, node_id, node_ids, ids_seen@.insert(message))
                    &&& replied(reply, Some(msg_id), request_id)
                    &&& reply->0.payload is BroadcastOk
                },
                Payload::Read => {
                    &&& broadcasting_is(new, next, node_id, node_ids, ids_seen@)
                    &&& replied(reply, Some(msg_id), request_id)
                    &&& reply->0.payload is ReadOk
                    &&& reply_values(reply) == Some(ids_seen@)
                },
                Payload::Gossip { ids_to_see } => {
                    &&& broadcasting_is(new, msg_id.id, node_id, node_ids, ids_seen@.union(ids_to_see@))
                    &&& gossip_answer(reply, ids_seen@.difference(ids_to_see@))
                },
                _ => new == old && reply is None,
            }
        },
        Node::Networked { msg_id, node_id, node_ids, ids_seen_by_neighbours } => {
            let next = (msg_id.id + 1) as usize;
            let est = ids_seen_by_neighbours@;
            match payload {
                Payload::Broadcast { message } => {
                    &&& networked_broadcasting_is(new, next, node_id, node_ids, set![message], est)
                    &&& replied(reply, Some(msg_id), request_id)
                    &&& reply->0.payload is BroadcastOk
                },
                Payload::Read => {
                    &&& networked_broadcasting_is(new, next, node_id, node_ids, Set::empty(), est)
                    &&& replied(reply, Some(msg_id), request_id)
                    &&& reply->0.payload is ReadOk
                    &&& reply_values(reply) == Some(Set::<usize>::empty())
                },
                Payload::Gossip { ids_to_see } => {
                    &&& networked_broadcasting_is(
                        new,
                        msg_id.id,
                        node_id,
                        node_ids,
                        ids_to_see@,
                        recorded_from(est, sender, ids_to_see@),
                    )
                    &&& replied(reply, Some(msg_id), request_id)
                    &&& reply->0.payload is GossipOk
                    &&& reply_values(reply) == Some(ids_to_see@)
                },
                _ => new == old && reply is None,
            }
        },
        Node::NetworkedBroadcasting { msg_id, node_id, node_ids, ids_seen, ids_seen_by_neighbours } => {
            let next = (msg_id.id + 1) as usize;
            let est = ids_seen_by_neighbours@;
            match payload {
                Payload::Broadcast { message } => {
                    &&& networked_broadcasting_is(new, next, node_id, node_ids, ids_seen@.insert(message), est)
                    &&& replied(reply, Some(msg_id), request_id)
                    &&& reply->0.payload is BroadcastOk
                },
                Payload::Read => {
                    &&& networked_broadcasting_is(new, next, node_id, node_ids, ids_seen@, est)
                    &&& replied(reply, Some(msg_id), request_id)
                    &&& reply->0.payload is ReadOk
                    &&& reply_values(reply) == Some(ids_seen@)
                },
                Payload::Gossip { ids_to_see } => {
                    &&& networked_broadcasting_is(
                        new,
                        msg_id.id,
                        node_id,
                        node_ids,
                        ids_seen@.union(ids_to_see@),
                        est,
                    )
                    &&& gossip_answer(reply, ids_seen@.difference(ids_to_see@))
                },
                Payload::GossipOk { ids_to_see } => {
                    &&& networked_broadcasting_is(
                        new,
                        msg_id.id,
                        node_id,
                        node_ids,
                        ids_seen@.union(ids_to_see@),
                        recorded_from(est, sender, ids_to_see@),
                    )
                    &&& reply is None
                },
                _ => new == old && reply is None,
            }
        },
    }
}

impl Node {
    pub open spec fn counter(self) -> usize {
        match self {
            Node::Uninitialised { msg_id } => msg_id.id,
            Node::Initialised { msg_id, .. } => msg_id.id,
            Node::Networked { msg_id, .. } => msg_id.id,
            Node::Broadcasting { msg_id, .. } => msg_id.id,
            Node::NetworkedBroadcasting { msg_id, .. } => msg_id.id,
        }
    }

    pub open spec fn wf(self) -> bool {
        match self {
            Node::Networked { ids_seen_by_neighbours, .. } => ids_seen_by_neighbours.wf(),
            Node::NetworkedBroadcasting { ids_seen_by_neighbours, .. } => ids_seen_by_neighbours.wf(),
            _ => true,
        }
    }

    pub fn new() -> (r: Node)
        ensures
            r == (Node::Uninitialised { msg_id: MessageId { id: 0 } }),
    {
        Node::Uninitialised { msg_id: MessageId::new(0) }
    }

    /// The node's identity, once it is initialised.
    pub fn id(&self) -> (r: Option<NodeId>)
        ensures
            r == (match *self {
                Node::Uninitialised { .. } => None,
                Node::Initialised { node_id, .. } => Some(node_id),
                Node::Networked { node_id, .. } => Some(node_id),
                Node::Broadcasting { node_id, .. } => Some(node_id),
                Node::NetworkedBroadcasting { node_id, .. } => Some(node_id),
            }),
    {
        match self {
            Node::Uninitialised { .. } => None,
            Node::Initialised { node_id, .. } => Some(*node_id),
            Node::Networked { node_id, .. } => Some(*node_id),
            Node::Broadcasting { node_id, .. } => Some(*node_id),
            Node::NetworkedBroadcasting { node_id, .. } => Some(*node_id),
        }
    }

    /// The node's sequence counter.
    pub fn msg_id(&self) -> (r: MessageId)
        ensures
            r.id == self.counter(),
    {
        match self {
            Node::Uninitialised { msg_id } => *msg_id,
            Node::Initialised { msg_id, .. } => *msg_id,
            Node::Networked { msg_id, .. } => *msg_id,
            Node::Broadcasting { msg_id, .. } => *msg_id,
            Node::NetworkedBroadcasting { msg_id, .. } => *msg_id,
        }
    }

    /// Whether the node gossips: once it knows its neighbours and holds
    /// values.
    pub fn gossips(&self) -> (r: bool)
        ensures
            r == (*self is NetworkedBroadcasting),
    {
        match self {
            Node::NetworkedBroadcasting { .. } => true,
            _ => false,
        }
    }

    /// Handles one request. A payload that the node's stage does not expect
    /// changes nothing and has no reply.
    pub fn handle(self, sender: Option<NodeId>, request_id: Option<MessageId>, payload: Payload) -> (r: (Node, Option<Reply>))
        requires
            self.wf(),
            self.counter() < usize::MAX,
        ensures
            r.0.wf(),
            node_handled(self, sender, request_id, payload, r.0, r.1),
    {
        match self {
            Node::Uninitialised { msg_id } => match payload {
                Payload::Init { node_id, node_ids } => {
                    let reply = Reply { msg_id: Some(msg_id), in_reply_to: request_id, payload: Payload::InitOk };
                    (Node::Initialised { msg_id: msg_id.increment(), node_id, node_ids }, Some(reply))
                },
                _ => (Node::Uninitialised { msg_id }, None),
            },
            Node::Initialised { msg_id, node_id, node_ids } => match payload {
                Payload::Echo { echo } => {
                    let reply = Reply { msg_id: Some(msg_id), in_reply_to: request_id, payload: Payload::EchoOk { echo } };
                    (Node::Initialised { msg_id: msg_id.increment(), node_id, node_ids }, Some(reply))
                },
                Payload::Generate => {
                    let id = fresh_id();
                    let reply = Reply { msg_id: Some(msg_id), in_reply_to: request_id, payload: Payload::GenerateOk { id } };
                    (Node::Initialised { msg_id: msg_id.increment(), node_id, node_ids }, Some(reply))
                },
                Payload::Topology => {
                    let neighbours = derive_neighbours(&node_ids, node_id);
                    let ids_seen_by_neighbours = IdsSeenByNeighbours::new(&neighbours);
                    let reply = Reply { msg_id: Some(msg_id), in_reply_to: request_id, payload: Payload::TopologyOk };
                    let node = Node::Networked { msg_id: msg_id.increment(), node_id, node_ids, ids_seen_by_neighbours };
                    (node, Some(reply))
                },
                Payload::Broadcast { message } => {
                    let reply = Reply { msg_id: Some(msg_id), in_reply_to: request_id, payload: Payload::BroadcastOk };
                    let node = Node::Broadcasting { msg_id: msg_id.increment(), node_id, node_ids, ids_seen: singleton(message) };
                    (node, Some(reply))
                },
                _ => (Node::Initialised { msg_id, node_id, node_ids }, None),
            },
            Node::Broadcasting { msg_id, node_id, node_ids, mut ids_seen } => match payload {
                Payload::Broadcast { message } => {
                    ids_seen.insert(message);
                    let reply = Reply { msg_id: Some(msg_id), in_reply_to: request_id, payload: Payload::BroadcastOk };
                    (Node::Broadcasting { msg_id: msg_id.increment(), node_id, node_ids, ids_seen }, Some(reply))
                },
                Payload::Read => {
                    let messages = copy_values(&ids_seen);
                    let reply = Reply { msg_id: Some(msg_id), in_reply_to: request_id, payload: Payload::ReadOk { messages } };
                    (Node::Broadcasting { msg_id: msg_id.increment(), node_id, node_ids, ids_seen }, Some(reply))
                },
                Payload::Gossip { ids_to_see } => {
                    let missing = merge_incoming(&mut ids_seen, &ids_to_see);
                    let reply = if missing.is_empty() {
                        None
                    } else {
                        Some(Reply { msg_id: None, in_reply_to: None, payload: Payload::GossipOk { ids_to_see: missing } })
                    };
                    (Node::Broadcasting { msg_id, node_id, node_ids, ids_seen }, reply)
                },
                _ => (Node::Broadcasting { msg_id, node_id, node_ids, ids_seen }, None),
            },
            Node::Networked { msg_id, node_id, node_ids, mut ids_seen_by_neighbours } => match payload {
                Payload::Broadcast { message } => {
                    let reply = Reply { msg_id: Some(msg_id), in_reply_to: request_id, payload: Payload::BroadcastOk };
                    let node = Node::NetworkedBroadcasting {
                        msg_id: msg_id.increment(),
                        node_id,
                        node_ids,
                        ids_seen: singleton(message),
                        ids_seen_by_neighbours,
                    };
                    (node, Some(reply))
                },
                Payload::Read => {
                    let reply = Reply {
                        msg_id: Some(msg_id),
                        in_reply_to: request_id,
                        payload: Payload::ReadOk { messages: HashSet::new() },
                    };
                    let node = Node::NetworkedBroadcasting {
                        msg_id: msg_id.increment(),
                        node_id,
                        node_ids,
                        ids_seen: HashSet::new(),
                        ids_seen_by_neighbours,
                    };
                    (node, Some(reply))
                },
                Payload::Gossip { ids_to_see } => {
                    if let Some(s) = sender {
                        ids_seen_by_neighbours.update(s.index, &ids_to_see);
                    }
                    let echoed = copy_values(&ids_to_see);
                    let reply = Reply {
                        msg_id: Some(msg_id),
                        in_reply_to: request_id,
                        payload: Payload::GossipOk { ids_to_see: echoed },
                    };
                    let node = Node::NetworkedBroadcasting {
                        msg_id,
                        node_id,
                        node_ids,
                        ids_seen: ids_to_see,
                        ids_seen_by_neighbours,
                    };
                    (node, Some(reply))
                },
                _ => (Node::Networked { msg_id, node_id, node_ids, ids_seen_by_neighbours }, None),
            },
            Node::NetworkedBroadcasting { msg_id, node_id, node_ids, mut ids_seen, mut ids_seen_by_neighbours } => {
                match payload {
                    Payload::Broadcast { message } => {
                        ids_seen.insert(message);
                        let reply = Reply { msg_id: Some(msg_id), in_reply_to: request_id, payload: Payload::BroadcastOk };
                        let node = Node::NetworkedBroadcasting {
                            msg_id: msg_id.increment(),
                            node_id,
                            node_ids,
                            ids_seen,
                            ids_seen_by_neighbours,
                        };
                        (node, Some(reply))
                    },
                    Payload::Read => {
                        let messages = copy_values(&ids_seen);
                        let reply = Reply { msg_id: Some(msg_id), in_reply_to: request_id, payload: Payload::ReadOk { messages } };
                        let node = Node::NetworkedBroadcasting {
                            msg_id: msg_id.increment(),
                            node_id,
                            node_ids,
                            ids_seen,
                            ids_seen_by_neighbours,
                        };
                        (node, Some(reply))
                    },
                    Payload::Gossip { ids_to_see } => {
                        let missing = merge_incoming(&mut ids_seen, &ids_to_see);
                        let reply = if missing.is_empty() {
                            None
                        } else {
                            Some(Reply { msg_id: None, in_reply_to: None, payload: Payload::GossipOk { ids_to_see: missing } })
                        };
                        let node = Node::NetworkedBroadcasting { msg_id, node_id, node_ids, ids_seen, ids_seen_by_neighbours };
                        (node, reply)
                    },
                    Payload::GossipOk { ids_to_see } => {
                        extend_values(&mut ids_seen, &ids_to_see);
                        if let Some(s) = sender {
                            ids_seen_by_neighbours.update(s.index, &ids_to_see);
                        }
                        let node = Node::NetworkedBroadcasting { msg_id, node_id, node_ids, ids_seen, ids_seen_by_neighbours };
                        (node, None)
                    },
                    _ => {
                        let node = Node::NetworkedBroadcasting { msg_id, node_id, node_ids, ids_seen, ids_seen_by_neighbours };
                        (node, None)
                    },
                }
            },
        }
    }

    /// One gossip round, once the node knows its neighbours and holds
    /// values: for each neighbour not known to hold every value, the values
    /// it lacks.
    pub fn gossip(&self) -> (out: Vec<Outgoing>)
        requires
            self.wf(),
        ensures
            match *self {
                Node::NetworkedBroadcasting { ids_seen, ids_seen_by_neighbours, .. } => is_gossip_round(
                    ids_seen@,
                    ids_seen_by_neighbours@,
                    out@,
                ),
                _ => out@.len() == 0,
            },
    {
        match self {
            Node::NetworkedBroadcasting { ids_seen, ids_seen_by_neighbours, .. } => {
                gossip_round(ids_seen, ids_seen_by_neighbours)
            },
            _ => Vec::new(),
        }
    }
}

} // verus!
