use gossip_glomers::ids::{parse_label_bytes, MessageId, NodeId};

#[test]
fn parses_node_labels_of_any_length() {
    assert_eq!(NodeId::parse("n0"), Some(NodeId::new(0)));
    assert_eq!(NodeId::parse("n7"), Some(NodeId::new(7)));
    assert_eq!(NodeId::parse("n12"), Some(NodeId::new(12)));
    assert_eq!(NodeId::parse("n4096").map(|n| n.id_number()), Some(4096));
}

#[test]
fn rejects_other_labels() {
    assert_eq!(NodeId::parse("c1"), None);
    assert_eq!(NodeId::parse("n"), None);
    assert_eq!(NodeId::parse("n1x"), None);
    assert_eq!(NodeId::parse(""), None);
    assert_eq!(parse_label_bytes(b"n99999999999999999999999"), None);
}

#[test]
fn hub_is_index_zero() {
    assert!(NodeId::new(0).is_hub_node());
    assert!(!NodeId::new(3).is_hub_node());
    assert_eq!(NodeId::new(3).index(), 3);
}

#[test]
fn message_ids_increment() {
    assert_eq!(MessageId::new(4).increment(), MessageId::new(5));
}
