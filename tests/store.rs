use holydiver::broadcast::{craft_broadcast, GossipMessage, MessageType, Tag};
use holydiver::handler::{DataHandler, Handler};
use holydiver::identity::{PeerAddr, ID};
use holydiver::store::{describe_field, get_broadcast_data, HolyDiverDataHandler};
use std::collections::HashSet;

fn node(port: u16) -> ID {
    ID { addr: PeerAddr::V4 { ip: 0x7f00_0001, port }, bump: 3 }
}

fn fresh(port: u16) -> HolyDiverDataHandler {
    HolyDiverDataHandler::new(None, &node(port))
}

fn field(store: &HolyDiverDataHandler, name: &str) -> Option<String> {
    store.get_field(name.to_string())
}

#[test]
fn fresh_store_has_an_empty_values_map() {
    let store = fresh(9000);
    assert!(store.has_values());
    assert_eq!(field(&store, "color"), None);
}

#[test]
fn write_then_read_returns_the_quoted_value() {
    let mut store = fresh(9000);
    let saved = store.set_field("color".to_string(), "red".to_string());
    assert_eq!(field(&store, "color"), Some("\"red\"".to_string()));
    assert!(!saved.is_empty());
}

#[test]
fn saved_snapshot_survives_a_restart() {
    let mut store = fresh(9000);
    let saved = store.set_field("field".to_string(), "v".to_string());
    let restarted = HolyDiverDataHandler::new(Some(saved), &node(9000));
    assert_eq!(field(&restarted, "field"), Some("\"v\"".to_string()));
}

#[test]
fn unreadable_snapshot_starts_fresh() {
    let store = HolyDiverDataHandler::new(Some(vec![1, 2, 3, 4, 5]), &node(9000));
    assert!(store.has_values());
    assert_eq!(field(&store, "field"), None);
}

#[test]
fn sample_data_names_dio() {
    let data = get_broadcast_data();
    let mut store = fresh(9001);
    assert!(store.handle_message(MessageType::FullSync, data).is_some());
    assert_eq!(field(&store, "name"), Some("\"dio\"".to_string()));
}

#[test]
fn snapshot_reaches_another_node() {
    let mut a = fresh(9000);
    let mut b = fresh(9001);
    a.set_field("name".to_string(), "dio".to_string());
    let persisted = b.handle_message(MessageType::FullSync, a.get_state());
    assert!(persisted.is_some());
    assert_eq!(field(&b, "name"), Some("\"dio\"".to_string()));
}

#[test]
fn concurrent_writes_converge() {
    let mut a = fresh(9000);
    let mut b = fresh(9001);
    a.set_field("name".to_string(), "alice".to_string());
    b.set_field("name".to_string(), "bob".to_string());
    let from_a = a.get_state();
    let from_b = b.get_state();
    a.handle_message(MessageType::FullSync, from_b);
    b.handle_message(MessageType::FullSync, from_a);
    let va = field(&a, "name");
    let vb = field(&b, "name");
    assert_eq!(va, vb);
    assert!(va == Some("\"alice\"".to_string()) || va == Some("\"bob\"".to_string()));
}

#[test]
fn merging_a_snapshot_again_changes_nothing() {
    let mut x = fresh(9002);
    let mut y = fresh(9003);
    x.set_field("k1".to_string(), "one".to_string());
    y.set_field("k2".to_string(), "two".to_string());
    y.set_field("k1".to_string(), "uno".to_string());
    let s1 = x.get_state();
    let s2 = y.get_state();
    let mut once = fresh(9000);
    once.handle_message(MessageType::FullSync, s1.clone());
    once.handle_message(MessageType::FullSync, s2.clone());
    let mut again = fresh(9000);
    again.handle_message(MessageType::FullSync, s1.clone());
    again.handle_message(MessageType::FullSync, s2);
    again.handle_message(MessageType::FullSync, s1);
    for k in ["k1", "k2", "k3"] {
        assert_eq!(field(&once, k), field(&again, k));
    }
    assert_eq!(field(&again, "k2"), Some("\"two\"".to_string()));
}

#[test]
fn garbage_snapshot_is_ignored() {
    let mut store = fresh(9000);
    store.set_field("a".to_string(), "b".to_string());
    assert!(store.handle_message(MessageType::FullSync, vec![9, 9, 9]).is_none());
    assert!(store.handle_message(MessageType::IncSync, vec![]).is_none());
    assert_eq!(field(&store, "a"), Some("\"b\"".to_string()));
}

struct Node {
    store: HolyDiverDataHandler,
    merges: usize,
}

impl DataHandler for Node {
    fn handle_message(&mut self, msg_type: MessageType, data: Vec<u8>) {
        if self.store.handle_message(msg_type, data).is_some() {
            self.merges += 1;
        }
    }

    fn get_state(&mut self) -> Vec<u8> {
        self.store.get_state()
    }
}

#[test]
fn duplicate_snapshot_broadcast_merges_once() {
    let mut origin = fresh(9000);
    origin.set_field("name".to_string(), "dio".to_string());
    let item = craft_broadcast(
        Tag::SyncOperation { operation_id: 5 },
        GossipMessage::new(MessageType::FullSync, origin.get_state()),
    );
    let mut h = Handler::new(HashSet::new(), Node { store: fresh(9001), merges: 0 });
    assert!(h.receive_item(&item.data).unwrap().0.is_some());
    assert!(h.receive_item(&item.data).unwrap().0.is_none());
    assert_eq!(h.data_handler().merges, 1);
    assert_eq!(field(&h.data_handler().store, "name"), Some("\"dio\"".to_string()));
}

#[test]
fn field_lines_for_the_http_surface() {
    let mut store = fresh(9000);
    store.set_field("color".to_string(), "red".to_string());
    assert_eq!(describe_field("color", field(&store, "color")), "color: \"red\"");
    assert_eq!(describe_field("shape", field(&store, "shape")), "shape: N/A");
}

#[test]
fn merging_what_the_store_already_holds_succeeds_and_keeps_it() {
    let mut a = fresh(9000);
    a.set_field("x".to_string(), "1".to_string());
    let own = a.get_state();
    assert!(a.handle_message(MessageType::FullSync, own).is_some());
    assert_eq!(field(&a, "x"), Some("\"1\"".to_string()));
}
