use holydiver::broadcast::{craft_broadcast, FrameError, GossipMessage, MessageType, Tag};
use holydiver::handler::{DataHandler, Handler};
use holydiver::identity::PeerAddr;
use std::collections::HashSet;

#[derive(Default)]
struct Recorder {
    received: Vec<(MessageType, Vec<u8>)>,
    state: Vec<u8>,
}

impl DataHandler for Recorder {
    fn handle_message(&mut self, msg_type: MessageType, data: Vec<u8>) {
        self.received.push((msg_type, data));
    }

    fn get_state(&mut self) -> Vec<u8> {
        self.state.clone()
    }
}

fn fresh() -> Handler<Recorder> {
    Handler::new(HashSet::new(), Recorder::default())
}

#[test]
fn sync_operation_layout() {
    let b = craft_broadcast(
        Tag::SyncOperation { operation_id: 0x0102 },
        GossipMessage::new(MessageType::FullSync, vec![7, 8, 9]),
    );
    let mut expected = vec![0u8, 0x02, 0x01];
    expected.extend(vec![0u8; 14]);
    expected.extend(vec![0u8, 3, 7, 8, 9]);
    assert_eq!(b.data, expected);
}

#[test]
fn long_payload_gets_a_wide_length_prefix() {
    let b = craft_broadcast(
        Tag::SyncOperation { operation_id: 1 },
        GossipMessage::new(MessageType::IncSync, vec![5u8; 300]),
    );
    assert_eq!(&b.data[17..21], &[1u8, 251, 0x2c, 0x01]);
    assert_eq!(b.data.len(), 17 + 4 + 300);
}

#[test]
fn startup_message_layout() {
    let b = craft_broadcast(
        Tag::StartupMessage { startup_time: -2, node_id: 3 },
        GossipMessage::new(MessageType::FullSync, vec![1, 2]),
    );
    let mut expected = vec![1u8, 0xfe, 0xff, 0xff, 0xff, 0xff, 0xff, 0xff, 0xff, 3];
    expected.extend(vec![0u8; 15]);
    assert_eq!(b.data, expected);
}

#[test]
fn node_config_layout() {
    let node = PeerAddr::V4 { ip: 0x7f00_0001, port: 9000 };
    let b = craft_broadcast(
        Tag::NodeConfig { node, version: 5 },
        GossipMessage::new(MessageType::FullSync, vec![]),
    );
    let expected = vec![2u8, 0, 1, 0, 0, 0x7f, 0x28, 0x23, 5, 0, 0, 0, 0, 0, 0, 0, 0, 0];
    assert_eq!(b.data, expected);
}

#[test]
fn receive_of_crafted_sync_operation_gives_the_same_bytes() {
    let tag = Tag::SyncOperation { operation_id: u128::MAX - 5 };
    let crafted = craft_broadcast(tag, GossipMessage::new(MessageType::FullSync, vec![1, 2, 3]));
    let mut h = fresh();
    let (item, used) = h.receive_item(&crafted.data).unwrap();
    let item = item.unwrap();
    assert_eq!(item.data, crafted.data);
    assert_eq!(item.tag, tag);
    assert_eq!(used, crafted.data.len());
    assert_eq!(h.data_handler().received, vec![(MessageType::FullSync, vec![1, 2, 3])]);
}

#[test]
fn receive_of_crafted_node_config_gives_the_same_bytes() {
    let node = PeerAddr::V6 { ip: 1 << 100, port: 7 };
    let tag = Tag::NodeConfig { node, version: 12 };
    let crafted = craft_broadcast(tag, GossipMessage::new(MessageType::IncSync, vec![4; 260]));
    let mut h = fresh();
    let (item, used) = h.receive_item(&crafted.data).unwrap();
    assert_eq!(item.unwrap().data, crafted.data);
    assert_eq!(used, crafted.data.len());
}

#[test]
fn receive_reports_where_the_item_ends() {
    let crafted = craft_broadcast(
        Tag::SyncOperation { operation_id: 9 },
        GossipMessage::new(MessageType::FullSync, vec![1]),
    );
    let mut data = crafted.data.clone();
    data.extend(vec![0xaa, 0xbb]);
    let mut h = fresh();
    let (_, used) = h.receive_item(&data).unwrap();
    assert_eq!(used, crafted.data.len());
}

#[test]
fn startup_message_is_answered_with_the_full_state() {
    let crafted = craft_broadcast(
        Tag::StartupMessage { startup_time: 1_700_000_000_000_000_000, node_id: 77 },
        GossipMessage::new(MessageType::FullSync, vec![]),
    );
    let mut h = Handler::new(HashSet::new(), Recorder { received: vec![], state: vec![9, 9] });
    let (item, used) = h.receive_item(&crafted.data).unwrap();
    let item = item.unwrap();
    assert_eq!(used, crafted.data.len());
    let id = match item.tag {
        Tag::SyncOperation { operation_id } => operation_id,
        _ => panic!("expected a document update"),
    };
    let expected = craft_broadcast(
        Tag::SyncOperation { operation_id: id },
        GossipMessage::new(MessageType::FullSync, vec![9, 9]),
    );
    assert_eq!(item.data, expected.data);
    assert!(h.data_handler().received.is_empty());
}

#[test]
fn unknown_tag_is_refused() {
    let mut h = fresh();
    assert_eq!(h.receive_item(&[3, 0, 0]).err(), Some(FrameError::BadTag));
    assert_eq!(h.receive_item(&[]).err(), Some(FrameError::BadTag));
    assert_eq!(h.receive_item(&[0, 1, 2]).err(), Some(FrameError::BadTag));
}

#[test]
fn truncated_payload_is_refused() {
    let crafted = craft_broadcast(
        Tag::SyncOperation { operation_id: 9 },
        GossipMessage::new(MessageType::FullSync, vec![1, 2, 3, 4]),
    );
    let mut h = fresh();
    let short = &crafted.data[..crafted.data.len() - 1];
    assert_eq!(h.receive_item(short).err(), Some(FrameError::BadPayload));
    let mut bad_type = crafted.data.clone();
    bad_type[17] = 2;
    assert_eq!(h.receive_item(&bad_type).err(), Some(FrameError::BadPayload));
    // nothing was applied, so the item is still new
    assert!(h.receive_item(&crafted.data).unwrap().0.is_some());
}

#[test]
fn newer_node_config_supersedes_older() {
    let node = PeerAddr::V4 { ip: 1, port: 2 };
    let other = PeerAddr::V4 { ip: 1, port: 3 };
    let msg = || GossipMessage::new(MessageType::FullSync, vec![]);
    let newer = craft_broadcast(Tag::NodeConfig { node, version: 10 }, msg());
    let older = craft_broadcast(Tag::NodeConfig { node, version: 9 }, msg());
    let elsewhere = craft_broadcast(Tag::NodeConfig { node: other, version: 1 }, msg());
    let sync = craft_broadcast(Tag::SyncOperation { operation_id: 1 }, msg());
    assert!(newer.invalidates(&older));
    assert!(!older.invalidates(&newer));
    assert!(!newer.invalidates(&newer));
    assert!(!newer.invalidates(&elsewhere));
    assert!(!sync.invalidates(&sync));
    assert!(!newer.invalidates(&sync));
    assert!(!sync.invalidates(&older));
}

#[test]
fn node_config_is_kept_only_when_newer() {
    let node = PeerAddr::V4 { ip: 1, port: 2 };
    let msg = || GossipMessage::new(MessageType::FullSync, vec![1]);
    let mut h = fresh();
    let v5 = craft_broadcast(Tag::NodeConfig { node, version: 5 }, msg());
    let v4 = craft_broadcast(Tag::NodeConfig { node, version: 4 }, msg());
    let v6 = craft_broadcast(Tag::NodeConfig { node, version: 6 }, msg());
    assert!(h.receive_item(&v5.data).unwrap().0.is_some());
    assert!(h.receive_item(&v5.data).unwrap().0.is_none());
    assert!(h.receive_item(&v4.data).unwrap().0.is_none());
    assert!(h.receive_item(&v6.data).unwrap().0.is_some());
    assert!(h.data_handler().received.is_empty());
}

#[test]
fn length_prefix_widths_at_their_boundaries() {
    let prefix = |n: usize| {
        let b = craft_broadcast(
            Tag::SyncOperation { operation_id: 0 },
            GossipMessage::new(MessageType::FullSync, vec![0u8; n]),
        );
        b.data[18..b.data.len() - n].to_vec()
    };
    assert_eq!(prefix(0), vec![0u8]);
    assert_eq!(prefix(250), vec![250u8]);
    assert_eq!(prefix(251), vec![251u8, 251, 0]);
    assert_eq!(prefix(65535), vec![251u8, 0xff, 0xff]);
    assert_eq!(prefix(65536), vec![252u8, 0, 0, 1, 0]);
}

#[test]
fn wide_items_round_trip_through_a_fresh_handler() {
    for n in [250usize, 251, 65536] {
        let tag = Tag::SyncOperation { operation_id: n as u128 };
        let crafted = craft_broadcast(tag, GossipMessage::new(MessageType::FullSync, vec![3u8; n]));
        let mut h = fresh();
        let (item, used) = h.receive_item(&crafted.data).unwrap();
        assert_eq!(item.unwrap().data, crafted.data);
        assert_eq!(used, crafted.data.len());
    }
}

#[test]
fn startup_with_negative_time_is_decoded_whole() {
    let crafted = craft_broadcast(
        Tag::StartupMessage { startup_time: i64::MIN, node_id: u128::MAX },
        GossipMessage::new(MessageType::FullSync, vec![]),
    );
    let mut h = fresh();
    let (item, used) = h.receive_item(&crafted.data).unwrap();
    assert!(item.is_some());
    assert_eq!(used, 25);
}
