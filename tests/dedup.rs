use holydiver::broadcast::{craft_broadcast, GossipMessage, MessageType, Tag};
use holydiver::handler::{DataHandler, Handler};
use std::collections::HashSet;

#[derive(Default)]
struct Counter {
    merges: usize,
}

impl DataHandler for Counter {
    fn handle_message(&mut self, _msg_type: MessageType, _data: Vec<u8>) {
        self.merges += 1;
    }

    fn get_state(&mut self) -> Vec<u8> {
        Vec::new()
    }
}

#[test]
fn duplicate_broadcast_is_applied_once() {
    let item = craft_broadcast(
        Tag::SyncOperation { operation_id: 42 },
        GossipMessage::new(MessageType::FullSync, vec![1, 2, 3]),
    );
    let mut h = Handler::new(HashSet::new(), Counter::default());
    let first = h.receive_item(&item.data).unwrap();
    assert!(first.0.is_some());
    let second = h.receive_item(&item.data).unwrap();
    assert!(second.0.is_none());
    assert_eq!(second.1, item.data.len());
    assert_eq!(h.data_handler().merges, 1);
}

#[test]
fn ids_seen_before_start_are_not_applied() {
    let item = craft_broadcast(
        Tag::SyncOperation { operation_id: 7 },
        GossipMessage::new(MessageType::FullSync, vec![]),
    );
    let mut seen = HashSet::new();
    seen.insert(7u128);
    let mut h = Handler::new(seen, Counter::default());
    assert!(h.receive_item(&item.data).unwrap().0.is_none());
    assert_eq!(h.data_handler().merges, 0);
}

#[test]
fn distinct_operations_are_each_applied() {
    let mut h = Handler::new(HashSet::new(), Counter::default());
    for id in 0..5u128 {
        for _ in 0..3 {
            let item = craft_broadcast(
                Tag::SyncOperation { operation_id: id },
                GossipMessage::new(MessageType::IncSync, vec![id as u8]),
            );
            h.receive_item(&item.data).unwrap();
        }
    }
    assert_eq!(h.data_handler().merges, 5);
}
