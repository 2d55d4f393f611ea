use holydiver::broadcast::{craft_broadcast, GossipMessage, MessageType, Tag};
use holydiver::identity::{PeerAddr, ID};
use holydiver::runtime::{Actor, EngineCall, FocaCommand, Input, Notification};
use std::time::Duration;

fn id(port: u16, bump: u16) -> ID {
    ID { addr: PeerAddr::V4 { ip: 0x0a00_0001, port }, bump }
}

#[test]
fn new_actor_is_drained_and_lists_itself() {
    let actor: Actor<u32> = Actor::new(id(9000, 1));
    assert!(actor.runtime.is_drained());
    assert_eq!(actor.addresses(), vec![id(9000, 1).addr]);
}

#[test]
fn drain_empties_every_buffer() {
    let mut actor: Actor<u32> = Actor::new(id(9000, 1));
    actor.runtime.send_to(id(9001, 1), &[1, 2]);
    actor.runtime.send_to(id(9002, 1), &[3]);
    actor.runtime.submit_after(10, Duration::from_millis(5));
    actor.runtime.submit_after(11, Duration::from_millis(6));
    actor.runtime.notify(Notification::MemberUp(id(9001, 1)));
    actor.runtime.notify(Notification::Idle);
    assert!(!actor.runtime.is_drained());
    let out = actor.drain();
    assert!(actor.runtime.is_drained());
    assert_eq!(out.packets, vec![(id(9002, 1).addr, vec![3]), (id(9001, 1).addr, vec![1, 2])]);
    assert_eq!(out.timers, vec![(Duration::from_millis(6), 11), (Duration::from_millis(5), 10)]);
    assert!(out.members_changed);
    assert_eq!(actor.addresses().len(), 2);
}

#[test]
fn rejoin_under_a_new_bump_keeps_the_address_live() {
    let mut actor: Actor<u32> = Actor::new(id(9000, 1));
    actor.runtime.notify(Notification::MemberUp(id(9003, 4)));
    assert!(actor.drain().members_changed);
    let renewed = id(9003, 4).renew().unwrap();
    actor.runtime.notify(Notification::MemberDown(id(9003, 4)));
    actor.runtime.notify(Notification::MemberUp(renewed));
    // the newest notification is applied first: up under the new bump, then down under the old
    let out = actor.drain();
    assert!(!out.members_changed);
    assert_eq!(actor.addresses().len(), 2);
    assert_eq!(renewed.addr, id(9003, 0).addr);
    assert_eq!(renewed.bump, 5);
}

#[test]
fn member_down_of_last_identity_changes_the_list() {
    let mut actor: Actor<u32> = Actor::new(id(9000, 1));
    actor.runtime.notify(Notification::MemberUp(id(9004, 1)));
    actor.drain();
    actor.runtime.notify(Notification::MemberDown(id(9004, 1)));
    let out = actor.drain();
    assert!(out.members_changed);
    assert_eq!(actor.addresses(), vec![id(9000, 1).addr]);
}

#[test]
fn send_broadcast_is_framed_for_the_engine() {
    let msg = GossipMessage::new(MessageType::FullSync, vec![4, 5]);
    let expected = craft_broadcast(Tag::SyncOperation { operation_id: 3 }, msg.clone());
    let cmd: FocaCommand<u32> = FocaCommand::SendBroadcast(Tag::SyncOperation { operation_id: 3 }, msg);
    match cmd.engine_call() {
        EngineCall::AddBroadcast(bytes) => assert_eq!(bytes, expected.data),
        _ => panic!("expected a broadcast"),
    }
}

#[test]
fn inputs_become_commands() {
    match FocaCommand::from_input(Input::<u32>::Event(8)).engine_call() {
        EngineCall::HandleTimer(t) => assert_eq!(t, 8),
        _ => panic!("expected a timer"),
    }
    match FocaCommand::from_input(Input::<u32>::Data(vec![1])).engine_call() {
        EngineCall::HandleData(d) => assert_eq!(d, vec![1]),
        _ => panic!("expected data"),
    }
    match FocaCommand::from_input(Input::<u32>::Announce(id(9000, 2))).engine_call() {
        EngineCall::Announce(to) => assert_eq!(to, id(9000, 2)),
        _ => panic!("expected an announcement"),
    }
}
