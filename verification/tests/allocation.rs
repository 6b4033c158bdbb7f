use turn::address::{IpAddress, TransportAddress};
use turn::allocation::{
    deadline_of, is_bindable, Allocation, FiveTuple, LifetimePolicy, DEFAULT_LIFETIME,
    MAX_LIFETIME, MIN_LIFETIME,
};
use turn::error::Error;
use turn::requested_transport::{PROTO_TCP, PROTO_UDP};
use turn::table::{AllocationTable, Inbound};

fn addr(last: u8, port: u16) -> TransportAddress {
    TransportAddress { ip: IpAddress::V4([10, 0, 0, last]), port }
}

fn owner(last: u8) -> FiveTuple {
    FiveTuple { client: addr(last, 4000), server: addr(1, 3478), protocol: PROTO_UDP }
}

fn table() -> AllocationTable {
    AllocationTable::new(LifetimePolicy::standard())
}

#[test]
fn lifetime_is_clamped() {
    let policy = LifetimePolicy::standard();
    assert_eq!((MIN_LIFETIME, DEFAULT_LIFETIME, MAX_LIFETIME), (30, 600, 3600));
    assert_eq!(policy.clamped(None), 600);
    assert_eq!(policy.clamped(Some(0)), 30);
    assert_eq!(policy.clamped(Some(29)), 30);
    assert_eq!(policy.clamped(Some(30)), 30);
    assert_eq!(policy.clamped(Some(1234)), 1234);
    assert_eq!(policy.clamped(Some(3600)), 3600);
    assert_eq!(policy.clamped(Some(3601)), 3600);
    assert_eq!(policy.clamped(Some(u32::MAX)), 3600);
    assert_eq!(deadline_of(1000, 600), 1600);
    assert_eq!(deadline_of(u64::MAX - 5, 600), u64::MAX);
}

#[test]
fn create_gives_an_allocation_until_its_deadline() {
    let mut t = table();
    assert_eq!(t.create(owner(2), b"user".to_vec(), PROTO_UDP, None, addr(1, 50000), 1000), Ok(600));
    assert!(t.has_live(&owner(2), 1000));
    assert!(t.has_live(&owner(2), 1599));
    assert!(!t.has_live(&owner(2), 1600));
    assert_eq!(t.relay_of(&owner(2), 1000), Some(addr(1, 50000)));
    assert!(!t.has_live(&owner(3), 1000));
    assert_eq!(t.create(owner(3), b"user".to_vec(), PROTO_UDP, Some(10), addr(1, 50001), 1000), Ok(30));
    assert!(!t.has_live(&owner(3), 1030));
    assert_eq!(t.create(owner(4), b"user".to_vec(), PROTO_UDP, Some(99999), addr(1, 50002), 1000), Ok(3600));
    assert!(t.has_live(&owner(4), 4599));
    assert_eq!(t.len(), 3);
}

#[test]
fn create_refuses_other_transports_and_second_allocations() {
    let mut t = table();
    assert_eq!(
        t.create(owner(2), b"user".to_vec(), PROTO_TCP, None, addr(1, 50000), 0),
        Err(Error::UnsupportedTransport)
    );
    assert_eq!(t.create(owner(2), b"user".to_vec(), 0, None, addr(1, 50000), 0), Err(Error::UnsupportedTransport));
    assert_eq!(t.len(), 0);
    assert_eq!(t.create(owner(2), b"user".to_vec(), PROTO_UDP, None, addr(1, 50000), 0), Ok(600));
    assert_eq!(
        t.create(owner(2), b"user".to_vec(), PROTO_UDP, None, addr(1, 50001), 599),
        Err(Error::AllocationExists)
    );
    assert_eq!(
        t.create(owner(2), b"user".to_vec(), PROTO_TCP, None, addr(1, 50001), 599),
        Err(Error::UnsupportedTransport)
    );
    assert_eq!(t.relay_of(&owner(2), 599), Some(addr(1, 50000)));
    assert_eq!(t.create(owner(2), b"user".to_vec(), PROTO_UDP, Some(60), addr(1, 50001), 600), Ok(60));
    assert_eq!(t.relay_of(&owner(2), 600), Some(addr(1, 50001)));
    assert_eq!(t.len(), 1);
}

#[test]
fn create_then_refresh_zero_leaves_nothing() {
    let mut t = table();
    t.create(owner(2), b"user".to_vec(), PROTO_UDP, None, addr(1, 50000), 100).unwrap();
    t.create_permission(owner(2), addr(9, 0).ip, 100).unwrap();
    assert_eq!(t.refresh(owner(2), Some(0), 200), Ok(0));
    assert!(!t.has_live(&owner(2), 200));
    assert_eq!(t.len(), 0);
    assert_eq!(t.refresh(owner(2), Some(0), 200), Err(Error::NoSuchAllocation));
    assert_eq!(t.refresh(owner(2), None, 200), Err(Error::NoSuchAllocation));
    assert_eq!(t.create_permission(owner(2), addr(9, 0).ip, 200), Err(Error::NoSuchAllocation));
    assert_eq!(t.bind_channel(owner(2), 0x4000, addr(9, 9), 200), Err(Error::NoSuchAllocation));
    assert_eq!(t.create(owner(2), b"user".to_vec(), PROTO_UDP, None, addr(1, 50000), 200), Ok(600));
}

#[test]
fn allocations_know_who_asked_for_them() {
    let mut t = table();
    t.create(owner(2), b"user".to_vec(), PROTO_UDP, None, addr(1, 50000), 0).unwrap();
    assert!(t.owned_by(&owner(2), b"user", 599));
    assert!(!t.owned_by(&owner(2), b"user", 600));
    assert!(!t.owned_by(&owner(2), b"other", 0));
    assert!(!t.owned_by(&owner(3), b"user", 0));
    assert_eq!(t.stale_relay(&owner(2), 599), None);
    assert_eq!(t.stale_relay(&owner(2), 600), Some(addr(1, 50000)));
    assert_eq!(t.stale_relay(&owner(3), 600), None);
}

#[test]
fn refresh_extends_the_expiry() {
    let mut t = table();
    t.create(owner(2), b"user".to_vec(), PROTO_UDP, Some(60), addr(1, 50000), 100).unwrap();
    assert_eq!(t.refresh(owner(2), Some(120), 150), Ok(120));
    assert!(t.has_live(&owner(2), 269));
    assert!(!t.has_live(&owner(2), 270));
    assert_eq!(t.refresh(owner(2), None, 200), Ok(600));
    assert!(t.has_live(&owner(2), 799));
    assert_eq!(t.refresh(owner(2), Some(1), 300), Ok(30));
    assert!(!t.has_live(&owner(2), 330));
    assert_eq!(t.refresh(owner(2), Some(60), 330), Err(Error::NoSuchAllocation));
    assert_eq!(t.relay_of(&owner(2), 329), Some(addr(1, 50000)));
}

#[test]
fn permission_needs_an_allocation() {
    let mut t = table();
    assert_eq!(t.create_permission(owner(2), addr(9, 0).ip, 0), Err(Error::NoSuchAllocation));
    t.create(owner(2), b"user".to_vec(), PROTO_UDP, Some(60), addr(1, 50000), 0).unwrap();
    assert_eq!(t.create_permission(owner(3), addr(9, 0).ip, 0), Err(Error::NoSuchAllocation));
    assert_eq!(t.create_permission(owner(2), addr(9, 0).ip, 60), Err(Error::NoSuchAllocation));
    assert_eq!(t.create_permission(owner(2), addr(9, 0).ip, 59), Ok(()));
}

#[test]
fn permissions_live_for_five_minutes() {
    let mut t = table();
    t.create(owner(2), b"user".to_vec(), PROTO_UDP, Some(3600), addr(1, 50000), 0).unwrap();
    assert_eq!(t.relay_for_send(&owner(2), &addr(9, 0).ip, 0), None);
    t.create_permission(owner(2), addr(9, 0).ip, 10).unwrap();
    assert_eq!(t.relay_for_send(&owner(2), &addr(9, 0).ip, 309), Some(addr(1, 50000)));
    assert_eq!(t.relay_for_send(&owner(2), &addr(9, 0).ip, 310), None);
    assert_eq!(t.relay_for_send(&owner(2), &addr(8, 0).ip, 100), None);
    assert_eq!(t.relay_for_send(&owner(3), &addr(9, 0).ip, 100), None);
    t.create_permission(owner(2), addr(9, 0).ip, 300).unwrap();
    assert_eq!(t.relay_for_send(&owner(2), &addr(9, 0).ip, 599), Some(addr(1, 50000)));
    assert_eq!(t.relay_for_send(&owner(2), &addr(9, 0).ip, 600), None);
}

#[test]
fn channels_and_peers_are_bound_one_to_one() {
    let mut t = table();
    t.create(owner(2), b"user".to_vec(), PROTO_UDP, Some(3600), addr(1, 50000), 0).unwrap();
    assert!(is_bindable(0x4000) && is_bindable(0x7ffe));
    assert!(!is_bindable(0x3fff) && !is_bindable(0x7fff) && !is_bindable(0));
    assert_eq!(t.bind_channel(owner(2), 0x3fff, addr(9, 9), 0), Err(Error::BadRequest));
    assert_eq!(t.bind_channel(owner(2), 0x7fff, addr(9, 9), 0), Err(Error::BadRequest));
    assert_eq!(t.bind_channel(owner(2), 0x4000, addr(9, 9), 0), Ok(()));
    assert_eq!(t.bind_channel(owner(2), 0x4000, addr(9, 9), 5), Ok(()));
    assert_eq!(t.bind_channel(owner(2), 0x4000, addr(9, 10), 5), Err(Error::ChannelAlreadyBound));
    assert_eq!(t.bind_channel(owner(2), 0x4000, addr(8, 9), 5), Err(Error::ChannelAlreadyBound));
    assert_eq!(t.bind_channel(owner(2), 0x4001, addr(9, 9), 5), Err(Error::ChannelAlreadyBound));
    assert_eq!(t.bind_channel(owner(2), 0x4001, addr(9, 10), 5), Ok(()));
    assert_eq!(t.relay_for_channel(&owner(2), 0x4000, 5), Some((addr(1, 50000), addr(9, 9))));
    assert_eq!(t.relay_for_channel(&owner(2), 0x4001, 5), Some((addr(1, 50000), addr(9, 10))));
    assert_eq!(t.relay_for_channel(&owner(2), 0x4002, 5), None);
    assert_eq!(t.relay_for_channel(&owner(3), 0x4000, 5), None);
    assert_eq!(t.relay_for_channel(&owner(2), 0x4000, 604), Some((addr(1, 50000), addr(9, 9))));
    assert_eq!(t.relay_for_channel(&owner(2), 0x4000, 605), None);
    t.create(owner(3), b"user".to_vec(), PROTO_UDP, None, addr(1, 50001), 0).unwrap();
    assert_eq!(t.bind_channel(owner(3), 0x4000, addr(9, 10), 5), Ok(()));
}

#[test]
fn a_channel_binding_brings_a_permission() {
    let mut t = table();
    t.create(owner(2), b"user".to_vec(), PROTO_UDP, Some(3600), addr(1, 50000), 0).unwrap();
    t.bind_channel(owner(2), 0x4000, addr(9, 9), 100).unwrap();
    assert_eq!(t.relay_for_send(&owner(2), &addr(9, 0).ip, 399), Some(addr(1, 50000)));
    assert_eq!(t.relay_for_send(&owner(2), &addr(9, 0).ip, 400), None);
}

#[test]
fn relay_datagram_needs_a_permission() {
    let mut t = table();
    t.create(owner(2), b"user".to_vec(), PROTO_UDP, Some(3600), addr(1, 50000), 0).unwrap();
    t.create(owner(3), b"user".to_vec(), PROTO_UDP, Some(60), addr(1, 50001), 0).unwrap();
    assert_eq!(t.route_inbound(&addr(1, 50000), &addr(9, 9), 1), Inbound::Drop);
    t.create_permission(owner(2), addr(9, 0).ip, 1).unwrap();
    assert_eq!(
        t.route_inbound(&addr(1, 50000), &addr(9, 9), 1),
        Inbound::Data { client: owner(2) }
    );
    assert_eq!(
        t.route_inbound(&addr(1, 50000), &addr(9, 7777), 1),
        Inbound::Data { client: owner(2) }
    );
    assert_eq!(t.route_inbound(&addr(1, 50000), &addr(8, 9), 1), Inbound::Drop);
    assert_eq!(t.route_inbound(&addr(1, 50001), &addr(9, 9), 1), Inbound::Drop);
    assert_eq!(t.route_inbound(&addr(1, 50002), &addr(9, 9), 1), Inbound::Drop);
    assert_eq!(t.route_inbound(&addr(1, 50000), &addr(9, 9), 301), Inbound::Drop);
    t.bind_channel(owner(2), 0x4abc, addr(9, 9), 2).unwrap();
    assert_eq!(
        t.route_inbound(&addr(1, 50000), &addr(9, 9), 3),
        Inbound::Channel { client: owner(2), number: 0x4abc }
    );
    assert_eq!(
        t.route_inbound(&addr(1, 50000), &addr(9, 10), 3),
        Inbound::Data { client: owner(2) }
    );
    t.create_permission(owner(3), addr(9, 0).ip, 1).unwrap();
    assert_eq!(t.route_inbound(&addr(1, 50001), &addr(9, 9), 59), Inbound::Data { client: owner(3) });
    assert_eq!(t.route_inbound(&addr(1, 50001), &addr(9, 9), 60), Inbound::Drop);
}

#[test]
fn sweep_takes_out_what_expired() {
    let mut t = table();
    t.create(owner(2), b"user".to_vec(), PROTO_UDP, Some(60), addr(1, 50000), 0).unwrap();
    t.create(owner(3), b"user".to_vec(), PROTO_UDP, Some(3600), addr(1, 50001), 0).unwrap();
    t.create(owner(4), b"user".to_vec(), PROTO_UDP, Some(30), addr(1, 50002), 0).unwrap();
    t.create_permission(owner(3), addr(9, 0).ip, 0).unwrap();
    t.create_permission(owner(3), addr(8, 0).ip, 200).unwrap();
    t.bind_channel(owner(3), 0x4000, addr(7, 1), 0).unwrap();
    t.bind_channel(owner(3), 0x4001, addr(6, 1), 500).unwrap();
    assert_eq!(t.sweep(29), vec![]);
    assert_eq!(t.len(), 3);
    assert_eq!(t.sweep(30), vec![addr(1, 50002)]);
    assert!(!t.has_live(&owner(4), 0));
    assert_eq!(t.sweep(600), vec![addr(1, 50000)]);
    assert_eq!(t.len(), 1);
    assert!(t.has_live(&owner(3), 600));
    assert_eq!(t.relay_for_channel(&owner(3), 0x4000, 0), None);
    assert_eq!(t.relay_for_channel(&owner(3), 0x4001, 600), Some((addr(1, 50001), addr(6, 1))));
    assert_eq!(t.relay_for_send(&owner(3), &addr(9, 0).ip, 0), None);
    assert_eq!(t.relay_for_send(&owner(3), &addr(6, 0).ip, 600), Some(addr(1, 50001)));
    assert_eq!(t.bind_channel(owner(3), 0x4000, addr(5, 1), 600), Ok(()));
    assert_eq!(t.sweep(u64::MAX), vec![addr(1, 50001)]);
    assert_eq!(t.len(), 0);
    assert_eq!(t.sweep(u64::MAX), vec![]);
}

#[test]
fn one_allocation_on_its_own() {
    let mut a = Allocation::new(owner(2), b"user".to_vec(), addr(1, 50000), 100);
    assert!(a.held_by(b"user") && !a.held_by(b"other") && !a.held_by(b""));
    assert_eq!((a.owner(), a.relay(), a.expires_at()), (owner(2), addr(1, 50000), 100));
    assert!(a.is_live(99) && !a.is_live(100));
    a.set_expiry(200);
    assert!(a.is_live(199));
    a.permit(addr(9, 0).ip, 50);
    assert!(a.permits(&addr(9, 0).ip, 49) && !a.permits(&addr(9, 0).ip, 50));
    assert_eq!(a.bind(0x4000, addr(9, 1), 80), Ok(()));
    assert_eq!(a.bind(0x4000, addr(9, 2), 80), Err(Error::ChannelAlreadyBound));
    assert_eq!(a.peer_of(0x4000, 79), Some(addr(9, 1)));
    assert_eq!(a.peer_of(0x4000, 80), None);
    assert_eq!(a.channel_of(&addr(9, 1), 79), Some(0x4000));
    assert_eq!(a.channel_of(&addr(9, 2), 79), None);
    a.sweep(60);
    assert!(!a.permits(&addr(9, 0).ip, 0));
    assert_eq!(a.peer_of(0x4000, 60), Some(addr(9, 1)));
    a.sweep(80);
    assert_eq!(a.bind(0x4000, addr(9, 2), 90), Ok(()));
}
