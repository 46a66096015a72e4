//! Properties of the broadcast node that relate several requests.
use std::collections::HashSet;
use vstd::prelude::*;
use crate::broadcast::{handled, BroadcastNode, BroadcastPayload, Reply};
use crate::ids::{MessageId, NodeId};

verus! {

/// The values of a `read_ok` reply, where the reply is one.
pub open spec fn read_ok_values(reply: Option<Reply>) -> Option<Set<usize>> {
    match reply {
        Some(rp) => match rp.payload {
            BroadcastPayload::ReadOk { messages } => Some(messages@),
            _ => None,
        },
        None => None,
    }
}

/// The values that a gossip payload carries.
pub open spec fn gossip_values(p: BroadcastPayload) -> Option<Set<usize>> {
    match p {
        BroadcastPayload::Gossip { ids_to_see } => Some(ids_to_see@),
        _ => None,
    }
}

/// Handling a request never removes a value that the node has seen.
pub proof fn seen_values_only_grow(
    old: BroadcastNode,
    sender: Option<NodeId>,
    request_id: Option<MessageId>,
    payload: BroadcastPayload,
    new: BroadcastNode,
    reply: Option<Reply>,
)
    requires
        handled(old, sender, request_id, payload, new, reply),
    ensures
        old.seen().subset_of(new.seen()),
{
}

/// Handling a request never drops a neighbour, nor a value that a neighbour
/// was believed to hold.
pub proof fn estimates_only_grow(
    old: BroadcastNode,
    sender: Option<NodeId>,
    request_id: Option<MessageId>,
    payload: BroadcastPayload,
    new: BroadcastNode,
    reply: Option<Reply>,
)
    requires
        handled(old, sender, request_id, payload, new, reply),
    ensures
        forall|k: usize| #[trigger] old.estimates().contains_key(k) ==> new.estimates().contains_key(k)
            && old.estimates()[k].subset_of(new.estimates()[k]),
{
}

/// Merging the same gossip payload twice from the same sender leaves the
/// seen values and the estimates as merging it once did.
pub proof fn gossip_merge_is_idempotent(
    n0: BroadcastNode,
    sender: Option<NodeId>,
    id1: Option<MessageId>,
    first_payload: BroadcastPayload,
    n1: BroadcastNode,
    r1: Option<Reply>,
    id2: Option<MessageId>,
    second_payload: BroadcastPayload,
    n2: BroadcastNode,
    r2: Option<Reply>,
)
    requires
        gossip_values(first_payload) is Some,
        gossip_values(first_payload) == gossip_values(second_payload),
        handled(n0, sender, id1, first_payload, n1, r1),
        handled(n1, sender, id2, second_payload, n2, r2),
    ensures
        n2.seen() == n1.seen(),
        n2.estimates() == n1.estimates(),
{
    let v = gossip_values(first_payload).unwrap();
    if n0 is Networked || n0 is Broadcasting {
        assert(n1.seen().union(v) =~= n1.seen());
    }
}

/// After a node handles `broadcast` of `m` in a stage that takes it, a
/// `read` that follows answers with a set that holds `m`.
pub proof fn read_after_write(
    n0: BroadcastNode,
    s1: Option<NodeId>,
    id1: Option<MessageId>,
    m: usize,
    n1: BroadcastNode,
    r1: Option<Reply>,
    s2: Option<NodeId>,
    id2: Option<MessageId>,
    n2: BroadcastNode,
    r2: Option<Reply>,
)
    requires
        n0 is Networked || n0 is Broadcasting,
        handled(n0, s1, id1, BroadcastPayload::Broadcast { message: m }, n1, r1),
        handled(n1, s2, id2, BroadcastPayload::Read, n2, r2),
    ensures
        read_ok_values(r2) is Some,
        read_ok_values(r2).unwrap().contains(m),
{
}

/// In a cluster given as nodes by index, no node has anything left to gossip:
/// each neighbour is believed to hold every value that the node holds.
pub open spec fn quiescent(nodes: Map<usize, BroadcastNode>) -> bool {
    forall|a: usize, b: usize|
        #![trigger nodes[a].estimates()[b]]
        nodes.contains_key(a) && nodes[a].estimates().contains_key(b) ==> nodes[a].seen().subset_of(
            nodes[a].estimates()[b],
        )
}

/// No node believes a neighbour holds a value that the neighbour lacks.
pub open spec fn estimates_sound(nodes: Map<usize, BroadcastNode>) -> bool {
    forall|a: usize, b: usize|
        #![trigger nodes[a].estimates()[b]]
        nodes.contains_key(a) && nodes.contains_key(b) && nodes[a].estimates().contains_key(b)
            ==> nodes[a].estimates()[b].subset_of(nodes[b].seen())
}

/// `path` leads from node to neighbour through the cluster.
pub open spec fn is_path(nodes: Map<usize, BroadcastNode>, path: Seq<usize>) -> bool {
    &&& path.len() >= 1
    &&& forall|i: int| 0 <= i < path.len() ==> nodes.contains_key(#[trigger] path[i])
    &&& forall|i: int|
        0 <= i < path.len() - 1 ==> #[trigger] nodes[path[i]].estimates().contains_key(path[i + 1])
}

/// Once gossip has died down in a cluster whose estimates are sound, every
/// value that a node holds is held by every node that it reaches: over a
/// connected neighbour graph, all nodes hold the same values.
pub proof fn quiescent_cluster_agrees(nodes: Map<usize, BroadcastNode>, path: Seq<usize>)
    requires
        quiescent(nodes),
        estimates_sound(nodes),
        is_path(nodes, path),
    ensures
        nodes[path[0]].seen().subset_of(nodes[path.last()].seen()),
    decreases path.len(),
{
    if path.len() > 1 {
        let rest = path.drop_first();
        assert forall|i: int| 0 <= i < rest.len() - 1 implies #[trigger] nodes[rest[i]].estimates().contains_key(rest[i + 1]) by {
            assert(rest[i] == path[i + 1] && rest[i + 1] == path[i + 2]);
        }
        assert forall|i: int| 0 <= i < rest.len() implies nodes.contains_key(#[trigger] rest[i]) by {
            assert(rest[i] == path[i + 1]);
        }
        quiescent_cluster_agrees(nodes, rest);
        let a = path[0];
        let b = path[1];
        assert(nodes[a].estimates().contains_key(b));
        assert(nodes[a].seen().subset_of(nodes[a].estimates()[b]));
        assert(nodes[a].estimates()[b].subset_of(nodes[b].seen()));
        assert(rest[0] == b);
        assert(rest.last() == path.last());
    }
}

/// A node whose gossip round is empty has nothing left to tell any
/// neighbour.
pub proof fn empty_round_means_nothing_to_send(node: BroadcastNode, out: Seq<crate::broadcast::Outgoing>, neighbour: usize)
    requires
        crate::broadcast::gossip_round_of(node, out),
        out.len() == 0,
        node is Broadcasting,
        node.estimates().contains_key(neighbour),
    ensures
        node.seen().subset_of(node.estimates()[neighbour]),
{
    if !node.seen().subset_of(node.estimates()[neighbour]) {
        let v = choose|v: usize| node.seen().contains(v) && !node.estimates()[neighbour].contains(v);
        assert(node.seen().difference(node.estimates()[neighbour]).contains(v));
    }
}

/// One exchange between a node `a` and its neighbour `b` leaves both with
/// every value that either had: `a` sends `b` what `b` is not known to hold,
/// `b` merges it, and `a` merges whatever `b` sends back. This holds where
/// `a`'s estimate of `b` claims nothing that `b` does not hold, and the
/// exchange keeps that so.
pub proof fn gossip_exchange_converges(
    a0: BroadcastNode,
    a_id: NodeId,
    b0: BroadcastNode,
    b_id: NodeId,
    ids: HashSet<usize>,
    b1: BroadcastNode,
    rb: Option<Reply>,
    a1: BroadcastNode,
    ra: Option<Reply>,
)
    requires
        a0 is Broadcasting,
        b0 is Broadcasting,
        a0.estimates().contains_key(b_id.index),
        a0.estimates()[b_id.index].subset_of(b0.seen()),
        ids@ == a0.seen().difference(a0.estimates()[b_id.index]),
        handled(b0, Some(a_id), None, BroadcastPayload::Gossip { ids_to_see: ids }, b1, rb),
        match rb {
            Some(rp) => handled(a0, Some(b_id), None, rp.payload, a1, ra),
            None => a1 == a0,
        },
    ensures
        a1.seen() == a0.seen().union(b0.seen()),
        b1.seen() == a1.seen(),
        a1.estimates().contains_key(b_id.index),
        a1.estimates()[b_id.index].subset_of(b1.seen()),
{
    let sa = a0.seen();
    let sb = b0.seen();
    assert(b1.seen() =~= sa.union(sb));
    if rb is None {
        assert(sb.difference(ids@).is_empty());
        assert forall|v: usize| sb.contains(v) implies sa.contains(v) by {
            if !ids@.contains(v) {
                assert(sb.difference(ids@).contains(v));
            }
        }
        assert(a1.seen() =~= sa.union(sb));
    } else {
        assert(a1.seen() =~= sa.union(sb));
    }
}

} // verus!
