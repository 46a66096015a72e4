use std::collections::HashSet;

use gossip_glomers::broadcast::{BroadcastNode, BroadcastPayload, Outgoing, Reply, Stage};
use gossip_glomers::ids::{MessageId, NodeId};
use gossip_glomers::topology::derive_neighbours;

fn set(values: &[usize]) -> HashSet<usize> {
    values.iter().copied().collect()
}

fn members() -> HashSet<usize> {
    set(&[0, 1, 2])
}

/// A node of the three-node cluster, initialised and networked.
fn networked(index: usize) -> BroadcastNode {
    let node = BroadcastNode::new();
    let init = BroadcastPayload::Init { node_id: NodeId::new(index), node_ids: members() };
    let (node, reply) = node.handle(None, Some(MessageId::new(1)), init);
    assert!(matches!(reply.unwrap().payload, BroadcastPayload::InitOk));
    let (node, reply) = node.handle(None, Some(MessageId::new(2)), BroadcastPayload::Topology);
    assert!(matches!(reply.unwrap().payload, BroadcastPayload::TopologyOk));
    assert_eq!(node.stage(), Stage::Networked);
    node
}

fn read(node: BroadcastNode) -> (BroadcastNode, HashSet<usize>) {
    let (node, reply) = node.handle(None, Some(MessageId::new(99)), BroadcastPayload::Read);
    match reply.unwrap().payload {
        BroadcastPayload::ReadOk { messages } => (node, messages),
        other => panic!("unexpected reply {:?}", other),
    }
}

fn gossip_for(out: &[Outgoing], dest: usize) -> Option<&HashSet<usize>> {
    out.iter().find(|g| g.dest.index == dest).map(|g| &g.ids_to_see)
}

fn gossip_ok_values(reply: Option<Reply>) -> Option<HashSet<usize>> {
    match reply {
        Some(Reply { msg_id: None, in_reply_to: None, payload: BroadcastPayload::GossipOk { ids_to_see } }) => {
            Some(ids_to_see)
        }
        None => None,
        Some(other) => panic!("unexpected reply {:?}", other),
    }
}

#[test]
fn three_node_topology() {
    assert_eq!(derive_neighbours(&members(), NodeId::new(0)), set(&[1, 2]));
    assert_eq!(derive_neighbours(&members(), NodeId::new(1)), set(&[2, 0]));
    assert_eq!(derive_neighbours(&members(), NodeId::new(2)), set(&[1, 0]));
}

#[test]
fn topology_is_deterministic_and_has_no_self_loop() {
    let m = set(&[0, 1, 2, 3, 4, 5]);
    for i in 0..6 {
        let first = derive_neighbours(&m, NodeId::new(i));
        let second = derive_neighbours(&m, NodeId::new(i));
        assert_eq!(first, second);
        assert!(!first.contains(&i));
    }
}

#[test]
fn fan_out_of_hub_and_spokes() {
    let m = set(&[0, 1, 2, 3, 4, 5]);
    assert_eq!(derive_neighbours(&m, NodeId::new(0)).len(), 6 - 1);
    for i in 1..6 {
        assert_eq!(derive_neighbours(&m, NodeId::new(i)).len(), 1 + 1);
    }
    assert_eq!(derive_neighbours(&m, NodeId::new(5)), set(&[1, 0]));
    assert_eq!(derive_neighbours(&m, NodeId::new(3)), set(&[4, 0]));
}

#[test]
fn single_member_cluster_has_no_neighbours() {
    assert!(derive_neighbours(&set(&[0]), NodeId::new(0)).is_empty());
}

#[test]
fn lone_spoke_is_not_its_own_neighbour() {
    assert_eq!(derive_neighbours(&set(&[0, 1]), NodeId::new(1)), set(&[0]));
}

#[test]
fn three_node_scenario_converges() {
    let n0 = networked(0);
    let n1 = networked(1);
    let n2 = networked(2);

    let (n1, reply) = n1.handle(None, Some(MessageId::new(5)), BroadcastPayload::Broadcast { message: 7 });
    let reply = reply.unwrap();
    assert!(matches!(reply.payload, BroadcastPayload::BroadcastOk));
    assert_eq!(reply.in_reply_to, Some(MessageId::new(5)));
    assert_eq!(reply.msg_id, Some(MessageId::new(3)));

    let out = n1.gossip();
    assert_eq!(out.len(), 2);
    assert_eq!(gossip_for(&out, 2), Some(&set(&[7])));
    assert_eq!(gossip_for(&out, 0), Some(&set(&[7])));

    let from_n1 = Some(NodeId::new(1));
    let (n2, r2) = n2.handle(from_n1, None, BroadcastPayload::Gossip { ids_to_see: set(&[7]) });
    let (n0, r0) = n0.handle(from_n1, None, BroadcastPayload::Gossip { ids_to_see: set(&[7]) });
    let echoed2 = gossip_ok_values(r2).unwrap();
    let echoed0 = gossip_ok_values(r0).unwrap();
    assert_eq!(echoed2, set(&[7]));
    assert_eq!(echoed0, set(&[7]));

    let (n1, none) = n1.handle(Some(NodeId::new(2)), None, BroadcastPayload::GossipOk { ids_to_see: echoed2 });
    assert!(none.is_none());
    let (n1, none) = n1.handle(Some(NodeId::new(0)), None, BroadcastPayload::GossipOk { ids_to_see: echoed0 });
    assert!(none.is_none());
    assert!(n1.gossip().is_empty());

    let (_, seen0) = read(n0);
    let (_, seen1) = read(n1);
    let (_, seen2) = read(n2);
    assert_eq!(seen0, set(&[7]));
    assert_eq!(seen1, set(&[7]));
    assert_eq!(seen2, set(&[7]));
}

#[test]
fn read_after_write_includes_value() {
    let node = networked(1);
    let (node, _) = node.handle(None, Some(MessageId::new(3)), BroadcastPayload::Broadcast { message: 4 });
    let (node, _) = node.handle(None, Some(MessageId::new(4)), BroadcastPayload::Broadcast { message: 9 });
    let (_, seen) = read(node);
    assert_eq!(seen, set(&[4, 9]));
}

#[test]
fn read_before_any_broadcast_is_empty() {
    let (node, seen) = read(networked(2));
    assert!(seen.is_empty());
    assert_eq!(node.stage(), Stage::Broadcasting);
    assert!(node.gossip().is_empty());
}

#[test]
fn merging_same_gossip_twice_changes_nothing_more() {
    let node = networked(0);
    let (node, _) = node.handle(None, Some(MessageId::new(3)), BroadcastPayload::Broadcast { message: 1 });
    let from = Some(NodeId::new(2));
    let (node, first) = node.handle(from, None, BroadcastPayload::Gossip { ids_to_see: set(&[1, 5]) });
    assert!(gossip_ok_values(first).is_none());
    let (node, second) = node.handle(from, None, BroadcastPayload::Gossip { ids_to_see: set(&[1, 5]) });
    assert!(gossip_ok_values(second).is_none());
    let (_, seen) = read(node);
    assert_eq!(seen, set(&[1, 5]));
}

#[test]
fn gossip_reply_carries_only_missing_values() {
    let node = networked(1);
    let (node, _) = node.handle(None, Some(MessageId::new(3)), BroadcastPayload::Broadcast { message: 1 });
    let (node, _) = node.handle(None, Some(MessageId::new(4)), BroadcastPayload::Broadcast { message: 2 });
    let (node, reply) =
        node.handle(Some(NodeId::new(2)), None, BroadcastPayload::Gossip { ids_to_see: set(&[2, 3]) });
    assert_eq!(gossip_ok_values(reply), Some(set(&[1])));
    let (_, seen) = read(node);
    assert_eq!(seen, set(&[1, 2, 3]));
}

#[test]
fn acknowledged_values_are_not_sent_again() {
    let node = networked(0);
    let (node, _) = node.handle(None, Some(MessageId::new(3)), BroadcastPayload::Broadcast { message: 8 });
    let out = node.gossip();
    assert_eq!(out.len(), 2);
    let (node, _) = node.handle(Some(NodeId::new(1)), None, BroadcastPayload::GossipOk { ids_to_see: set(&[8]) });
    let out = node.gossip();
    assert_eq!(out.len(), 1);
    assert_eq!(out[0].dest, NodeId::new(2));
    assert_eq!(out[0].ids_to_see, set(&[8]));
}

#[test]
fn unexpected_payloads_change_nothing() {
    let node = BroadcastNode::new();
    let (node, reply) = node.handle(None, Some(MessageId::new(1)), BroadcastPayload::Read);
    assert!(reply.is_none());
    assert_eq!(node.stage(), Stage::Uninitialised);
    assert_eq!(node.msg_id(), MessageId::new(0));
    assert_eq!(node.id(), None);

    let init = BroadcastPayload::Init { node_id: NodeId::new(1), node_ids: members() };
    let (node, _) = node.handle(None, Some(MessageId::new(1)), init);
    let (node, reply) = node.handle(None, Some(MessageId::new(2)), BroadcastPayload::Broadcast { message: 3 });
    assert!(reply.is_none());
    assert_eq!(node.stage(), Stage::Initialised);
    assert_eq!(node.id(), Some(NodeId::new(1)));
    assert_eq!(node.msg_id(), MessageId::new(1));

    let (node, _) = node.handle(None, Some(MessageId::new(3)), BroadcastPayload::Topology);
    let (node, reply) = node.handle(Some(NodeId::new(2)), None, BroadcastPayload::GossipOk { ids_to_see: set(&[1]) });
    assert!(reply.is_none());
    assert_eq!(node.stage(), Stage::Networked);
    assert!(node.gossip().is_empty());
}

#[test]
fn gossip_to_networked_node_is_echoed_and_adopted() {
    let node = networked(2);
    let (node, reply) = node.handle(Some(NodeId::new(0)), Some(MessageId::new(8)), BroadcastPayload::Gossip { ids_to_see: set(&[3, 4]) });
    assert_eq!(gossip_ok_values(reply), Some(set(&[3, 4])));
    assert_eq!(node.msg_id(), MessageId::new(2));
    // The sender is now known to hold what it sent: only node 1 hears of it.
    let out = node.gossip();
    assert_eq!(out.len(), 1);
    assert_eq!(out[0].dest, NodeId::new(1));
}

#[test]
fn exhausted_counter_refuses_only_counted_requests() {
    let node = BroadcastNode::Uninitialised { msg_id: MessageId::new(usize::MAX) };
    let init = BroadcastPayload::Init { node_id: NodeId::new(0), node_ids: members() };
    assert!(!node.can_handle(&init));
    assert!(node.can_handle(&BroadcastPayload::Read));
    assert!(BroadcastNode::new().can_handle(&init));
    assert!(!node.expects(&BroadcastPayload::Read));
    assert!(node.expects(&init));
}
