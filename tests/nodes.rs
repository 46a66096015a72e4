use std::collections::HashSet;

use gossip_glomers::counter_node::{CounterNode, CounterPayload};
use gossip_glomers::echo_node::{EchoNode, EchoPayload};
use gossip_glomers::ids::{MessageId, NodeId};
use gossip_glomers::kafka_node::{KafkaNode, KafkaPayload};
use gossip_glomers::keyed::LogKey;
use gossip_glomers::log_entries::{LogMessage, LogOffset};
use gossip_glomers::logs::Offsets;
use gossip_glomers::unique_ids_node::{UniqueIdsNode, UniqueIdsPayload, UUID_FORMAT_MASK, UUID_V4_BITS};

#[test]
fn test_uninitialised_node_handles_init_message() {
    let initial_node = EchoNode::new();
    let receiver_id = NodeId::new(1);
    let message_id = MessageId::new(0);
    let node_ids = HashSet::from([receiver_id.index]);
    let payload = EchoPayload::Init { node_id: receiver_id, node_ids: node_ids.clone() };
    let (subsequent_node, _) = initial_node.handle(Some(message_id), payload);
    assert_eq!(
        subsequent_node,
        EchoNode::Initialised { msg_id: message_id.increment(), node_id: receiver_id, node_ids }
    )
}

#[test]
fn echo_returns_the_text() {
    let node = EchoNode::new();
    let (node, _) = node.handle(None, EchoPayload::Init { node_id: NodeId::new(0), node_ids: HashSet::from([0]) });
    let (node, reply) = node.handle(Some(MessageId::new(4)), EchoPayload::Echo { echo: "hello".to_string() });
    let reply = reply.unwrap();
    assert_eq!(reply.payload, EchoPayload::EchoOk { echo: "hello".to_string() });
    assert_eq!(reply.in_reply_to, Some(MessageId::new(4)));
    assert_eq!(reply.msg_id, MessageId::new(2));
    assert_eq!(node.msg_id(), MessageId::new(2));
    let (node, reply) = node.handle(None, EchoPayload::InitOk);
    assert!(reply.is_none());
    assert_eq!(node.id(), Some(NodeId::new(0)));
}

#[test]
fn generated_ids_are_random_v4_uuids() {
    let node = UniqueIdsNode::new();
    let (node, reply) = node.handle(None, UniqueIdsPayload::Generate);
    assert!(reply.is_none());
    let (node, _) = node.handle(None, UniqueIdsPayload::Init { node_id: NodeId::new(2), node_ids: HashSet::from([2]) });
    let (node, first) = node.handle(Some(MessageId::new(1)), UniqueIdsPayload::Generate);
    let (_, second) = node.handle(Some(MessageId::new(2)), UniqueIdsPayload::Generate);
    let a = match first.unwrap().payload {
        UniqueIdsPayload::GenerateOk { id } => id,
        other => panic!("unexpected {:?}", other),
    };
    let b = match second.unwrap().payload {
        UniqueIdsPayload::GenerateOk { id } => id,
        other => panic!("unexpected {:?}", other),
    };
    assert_ne!(a, b);
    assert_eq!(a & UUID_FORMAT_MASK, UUID_V4_BITS);
    assert_eq!(b & UUID_FORMAT_MASK, UUID_V4_BITS);
}

fn counter_node(index: usize) -> CounterNode {
    let node = CounterNode::new();
    let (node, reply) =
        node.handle(Some(MessageId::new(1)), CounterPayload::Init { node_id: NodeId::new(index), node_ids: HashSet::from([0, 1, 2]) });
    assert!(matches!(reply.unwrap().payload, CounterPayload::InitOk));
    node
}

fn counter_value(node: CounterNode) -> (CounterNode, u32) {
    let (node, reply) = node.handle(Some(MessageId::new(9)), CounterPayload::Read);
    match reply.unwrap().payload {
        CounterPayload::ReadOk { value } => (node, value),
        other => panic!("unexpected {:?}", other),
    }
}

#[test]
fn counter_nodes_converge_by_gossip() {
    let a = counter_node(0);
    let b = counter_node(1);
    let (a, _) = a.handle(None, CounterPayload::Add { delta: 3 });
    let (b, _) = b.handle(None, CounterPayload::Add { delta: 4 });
    let out = a.gossip();
    assert_eq!(out.len(), 2);
    assert!(out.iter().all(|g| g.dest != NodeId::new(0) && g.other_counts == vec![3, 0, 0]));
    let (b, reply) = b.handle(None, CounterPayload::Gossip { other_counts: vec![3, 0, 0] });
    let updated = match reply.unwrap().payload {
        CounterPayload::GossipOk { updated_counts } => updated_counts,
        other => panic!("unexpected {:?}", other),
    };
    assert_eq!(updated, vec![3, 4, 0]);
    let (a, reply) = a.handle(None, CounterPayload::GossipOk { updated_counts: updated });
    assert!(reply.is_none());
    let (_, va) = counter_value(a);
    let (_, vb) = counter_value(b);
    assert_eq!(va, 7);
    assert_eq!(vb, 7);
}

#[test]
fn counter_add_that_would_overflow_is_not_accepted() {
    let node = counter_node(1);
    let (node, _) = node.handle(None, CounterPayload::Add { delta: u32::MAX });
    assert!(!node.accepts(&CounterPayload::Add { delta: 1 }));
    assert!(node.accepts(&CounterPayload::Add { delta: 0 }));
    assert!(node.accepts(&CounterPayload::Read));
}

#[test]
fn kafka_node_sends_polls_and_commits() {
    let node = KafkaNode::new();
    let (node, _) = node.handle(Some(MessageId::new(1)), KafkaPayload::Init { node_id: NodeId::new(0), node_ids: HashSet::from([0]) });
    let (node, reply) = node.handle(Some(MessageId::new(2)), KafkaPayload::Send { key: LogKey::new("k"), msg: LogMessage::new(40) });
    let reply = reply.unwrap();
    assert!(matches!(reply.payload, KafkaPayload::SendOk { offset } if offset == LogOffset::new(0)));
    assert_eq!(reply.msg_id, MessageId::new(2));
    let (node, reply) = node.handle(Some(MessageId::new(3)), KafkaPayload::Send { key: LogKey::new("k"), msg: LogMessage::new(41) });
    assert!(matches!(reply.unwrap().payload, KafkaPayload::SendOk { offset } if offset == LogOffset::new(1)));

    let mut offsets = Offsets::new();
    offsets.insert_offset(LogKey::new("k"), Some(LogOffset::new(1)));
    let (node, reply) = node.handle(Some(MessageId::new(4)), KafkaPayload::Poll { offsets });
    match reply.unwrap().payload {
        KafkaPayload::PollOk { msgs } => {
            let rows = msgs.items();
            assert_eq!(rows.len(), 1);
            let got: Vec<i64> = rows[0].1.iter().iter().map(|e| e.message.message).collect();
            assert_eq!(got, vec![41]);
        }
        other => panic!("unexpected {:?}", other),
    }

    let mut commit = Offsets::new();
    commit.insert_offset(LogKey::new("k"), Some(LogOffset::new(1)));
    let (node, reply) = node.handle(Some(MessageId::new(5)), KafkaPayload::CommitOffsets { offsets: commit });
    assert!(matches!(reply.unwrap().payload, KafkaPayload::CommitOffsetsOk));
    let (node, reply) =
        node.handle(Some(MessageId::new(6)), KafkaPayload::ListCommittedOffsets { keys: vec![LogKey::new("k"), LogKey::new("z")] });
    match reply.unwrap().payload {
        KafkaPayload::ListCommittedOffsetsOk { offsets } => {
            for (key, offset) in offsets.items().iter() {
                let expected = if key.key == "k" { 1 } else { 0 };
                assert_eq!(*offset, Some(LogOffset::new(expected)));
            }
            assert_eq!(offsets.items().len(), 2);
        }
        other => panic!("unexpected {:?}", other),
    }
    assert_eq!(node.msg_id(), MessageId::new(6));
}
