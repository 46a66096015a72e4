use std::collections::HashSet;

use gossip_glomers::ids::{MessageId, NodeId};
use gossip_glomers::node::{Node, Payload, Reply};
use gossip_glomers::unique_ids_node::{UUID_FORMAT_MASK, UUID_V4_BITS};

fn set(values: &[usize]) -> HashSet<usize> {
    values.iter().copied().collect()
}

fn initialised(index: usize) -> Node {
    let (node, reply) = Node::new().handle(
        None,
        Some(MessageId::new(1)),
        Payload::Init { node_id: NodeId::new(index), node_ids: set(&[0, 1, 2]) },
    );
    let reply = reply.unwrap();
    assert!(matches!(reply.payload, Payload::InitOk));
    assert_eq!(reply.msg_id, Some(MessageId::new(0)));
    node
}

fn values(reply: Option<Reply>) -> HashSet<usize> {
    match reply.unwrap().payload {
        Payload::ReadOk { messages } => messages,
        Payload::GossipOk { ids_to_see } => ids_to_see,
        other => panic!("unexpected {:?}", other),
    }
}

#[test]
fn combined_node_echoes_and_generates() {
    let node = initialised(0);
    let (node, reply) = node.handle(None, Some(MessageId::new(7)), Payload::Echo { echo: "x".to_string() });
    let reply = reply.unwrap();
    assert!(matches!(reply.payload, Payload::EchoOk { ref echo } if echo == "x"));
    assert_eq!(reply.msg_id, Some(MessageId::new(1)));
    assert_eq!(reply.in_reply_to, Some(MessageId::new(7)));
    let (node, reply) = node.handle(None, Some(MessageId::new(8)), Payload::Generate);
    match reply.unwrap().payload {
        Payload::GenerateOk { id } => assert_eq!(id & UUID_FORMAT_MASK, UUID_V4_BITS),
        other => panic!("unexpected {:?}", other),
    }
    assert_eq!(node.msg_id(), MessageId::new(3));
}

#[test]
fn combined_node_broadcasts_before_topology_without_gossip() {
    let node = initialised(1);
    let (node, _) = node.handle(None, Some(MessageId::new(2)), Payload::Broadcast { message: 6 });
    assert!(!node.gossips());
    assert!(node.gossip().is_empty());
    let (node, reply) = node.handle(None, Some(MessageId::new(3)), Payload::Read);
    assert_eq!(values(reply), set(&[6]));
    let (node, reply) = node.handle(None, Some(MessageId::new(4)), Payload::Topology);
    assert!(reply.is_none());
    assert_eq!(node.msg_id(), MessageId::new(3));
}

#[test]
fn combined_node_gossips_once_networked() {
    let node = initialised(1);
    let (node, _) = node.handle(None, Some(MessageId::new(2)), Payload::Topology);
    let (node, _) = node.handle(None, Some(MessageId::new(3)), Payload::Broadcast { message: 5 });
    assert!(node.gossips());
    let out = node.gossip();
    assert_eq!(out.len(), 2);
    let dests: HashSet<usize> = out.iter().map(|g| g.dest.index).collect();
    assert_eq!(dests, set(&[0, 2]));
    let (node, reply) = node.handle(Some(NodeId::new(2)), None, Payload::Gossip { ids_to_see: set(&[5, 9]) });
    assert!(reply.is_none());
    let (node, _) = node.handle(Some(NodeId::new(0)), None, Payload::GossipOk { ids_to_see: set(&[5, 9]) });
    let out = node.gossip();
    assert_eq!(out.len(), 1);
    assert_eq!(out[0].dest, NodeId::new(2));
    assert_eq!(out[0].ids_to_see, set(&[5, 9]));
}
