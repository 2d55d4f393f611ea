use holydiver::identity::{PeerAddr, ID};
use holydiver::members::Members;

fn id(port: u16, bump: u16) -> ID {
    ID { addr: PeerAddr::V4 { ip: 0x7f00_0001, port }, bump }
}

fn sorted(mut v: Vec<PeerAddr>) -> Vec<PeerAddr> {
    v.sort_by_key(|a| match a {
        PeerAddr::V4 { ip, port } => (0u8, *ip as u128, *port),
        PeerAddr::V6 { ip, port } => (1u8, *ip, *port),
    });
    v
}

#[test]
fn add_reports_only_the_first_identity_of_an_address() {
    let mut m = Members::new();
    assert!(m.add_member(id(9000, 1)));
    assert!(!m.add_member(id(9000, 2)));
    assert!(m.add_member(id(9001, 1)));
}

#[test]
fn remove_reports_only_the_last_identity_of_an_address() {
    let mut m = Members::new();
    m.add_member(id(9000, 1));
    m.add_member(id(9000, 2));
    assert!(!m.remove_member(id(9000, 1)));
    assert!(m.remove_member(id(9000, 2)));
    assert!(m.addresses().is_empty());
}

#[test]
fn removing_an_unknown_address_changes_nothing() {
    let mut m = Members::new();
    m.add_member(id(9000, 1));
    assert!(!m.remove_member(id(9005, 1)));
    assert_eq!(m.addresses(), vec![id(9000, 1).addr]);
}

#[test]
fn addresses_lists_the_live_addresses() {
    let mut m = Members::new();
    m.add_member(id(9000, 1));
    m.add_member(id(9001, 1));
    m.add_member(id(9002, 1));
    m.remove_member(id(9001, 1));
    m.add_member(id(9000, 7));
    assert_eq!(sorted(m.addresses()), vec![id(9000, 0).addr, id(9002, 0).addr]);
    // a rejoin under a new bump: down under the old identity, up under the new one
    assert!(m.remove_member(id(9002, 1)));
    assert!(m.add_member(id(9002, 2)));
    assert_eq!(sorted(m.addresses()), vec![id(9000, 0).addr, id(9002, 0).addr]);
}
