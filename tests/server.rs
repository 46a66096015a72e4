use std::collections::HashSet;

use gossip_glomers::ids::NodeId;
use gossip_glomers::request::RequestBody;
use gossip_glomers::server::{get_ids_to_gossip, Server};

fn set(values: &[usize]) -> HashSet<usize> {
    values.iter().copied().collect()
}

#[test]
fn gossip_sets_by_case() {
    assert_eq!(get_ids_to_gossip(&Some(set(&[1, 2, 3])), &Some(set(&[2]))), Some(set(&[1, 3])));
    assert_eq!(get_ids_to_gossip(&Some(set(&[1])), &None), Some(set(&[1])));
    assert_eq!(get_ids_to_gossip(&None, &Some(set(&[1]))), None);
    assert_eq!(get_ids_to_gossip(&None, &None), None);
}

#[test]
fn server_merges_reports() {
    let mut server = Server::new(NodeId::new(1));
    assert_eq!(server.ids_seen(), None);
    server.update_ids_seen(&None);
    assert_eq!(server.ids_seen(), None);
    server.update_ids_seen(&Some(set(&[4])));
    assert_eq!(server.ids_seen(), Some(set(&[4])));
    server.update_ids_seen(&Some(set(&[5])));
    assert_eq!(server.ids_seen(), Some(set(&[4, 5])));
    assert_eq!(server.known_by(2), None);
    server.update_ids_seen_by_neighbours(2, &None);
    assert_eq!(server.known_by(2), None);
    server.update_ids_seen_by_neighbours(2, &Some(set(&[4])));
    assert_eq!(server.known_by(2), Some(Some(set(&[4]))));
    server.update_ids_seen_by_neighbours(2, &Some(set(&[6])));
    assert_eq!(server.known_by(2), Some(Some(set(&[4, 6]))));
    server.update_ids_seen_by_neighbours(3, &Some(set(&[6])));
    assert_eq!(server.known_by(3), None);
    assert_eq!(server.ids_seen(), Some(set(&[4, 5])));
}

#[test]
fn request_kinds_are_named() {
    assert_eq!(RequestBody::Read { msg_id: 1 }.kind(), "read");
    assert_eq!(RequestBody::Echo { msg_id: 1, echo: "hi".to_string() }.kind(), "echo");
    assert_eq!(RequestBody::Broadcast { msg_id: 1, message: 3 }.kind(), "broadcast");
    assert_eq!(RequestBody::Generate { msg_id: 1 }.kind(), "generate");
}
