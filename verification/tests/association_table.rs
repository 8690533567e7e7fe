use relay_core::balancer::PingBalancer;
use relay_core::local::{dispatch, reply_allowed, Dispatch, CHANNEL_CAPACITY};
use relay_core::server::{Server, ServerAddr, ServerConfig, ServerScore, ServerType};
use relay_core::socks5::{IpAddress, SocketAddress};
use relay_core::table::AssociationTable;
use std::time::{Duration, Instant};

const LONG: u32 = 600_000;
const SHORT: u32 = 300;

fn wait(ms: u64) {
    let start = Instant::now();
    while start.elapsed() < Duration::from_millis(ms) {}
}

fn key(s: &str) -> String {
    String::from(s)
}

fn balancer(n: u8) -> PingBalancer<ServerScore> {
    let mut servers = Vec::new();
    for i in 0..n {
        servers.push(ServerScore::new(ServerConfig {
            addr: ServerAddr::SocketAddr(
                SocketAddress { ip: IpAddress::V4([10, 0, 0, i]), port: 8388 },
            ),
            method: String::from("aes-128-gcm"),
            key: vec![i; 16],
        }));
    }
    PingBalancer::new(servers, ServerType::Udp)
}

/// A balancer of two servers whose best server is the second.
fn balancer_preferring_second() -> PingBalancer<ServerScore> {
    let mut b = balancer(2);
    b.check_update_score(0, None);
    b.check_update_score(1, Some(10));
    b.election_pass();
    assert_eq!(b.best_idx(), 1);
    b
}

#[test]
fn new_table_holds_nothing() {
    let mut table = AssociationTable::new(LONG);
    assert!(!table.contains(&key("1.2.3.4:5")));
    let (found, expired) = table.get(&key("1.2.3.4:5"));
    assert_eq!(found, None);
    assert!(expired.is_empty());
}

#[test]
fn inserted_entry_is_found() {
    let mut table = AssociationTable::new(LONG);
    assert!(table.insert(key("1.2.3.4:5"), 3).is_empty());
    assert!(table.contains(&key("1.2.3.4:5")));
    assert!(!table.contains(&key("1.2.3.4:6")));
    assert_eq!(table.get(&key("1.2.3.4:5")), (Some(3), vec![]));
    assert_eq!(table.get(&key("1.2.3.4:6")), (None, vec![]));
}

#[test]
fn insert_replaces_the_binding_of_a_key() {
    let mut table = AssociationTable::new(LONG);
    table.insert(key("a"), 1);
    table.insert(key("b"), 2);
    table.insert(key("a"), 7);
    assert_eq!(table.get(&key("a")).0, Some(7));
    assert_eq!(table.get(&key("b")).0, Some(2));
}

#[test]
fn expired_entries_are_handed_back_by_get() {
    let mut table = AssociationTable::new(SHORT);
    table.insert(key("a"), 1);
    table.insert(key("b"), 2);
    wait(2 * SHORT as u64 + 100);
    let (found, mut expired) = table.get(&key("a"));
    assert_eq!(found, None);
    expired.sort();
    assert_eq!(expired, vec![(key("a"), 1), (key("b"), 2)]);
    assert_eq!(table.get(&key("b")), (None, vec![]));
}

#[test]
fn expired_entries_are_handed_back_by_insert() {
    let mut table = AssociationTable::new(SHORT);
    table.insert(key("a"), 1);
    wait(2 * SHORT as u64 + 100);
    assert_eq!(table.insert(key("c"), 4), vec![(key("a"), 1)]);
    assert_eq!(table.get(&key("c")).0, Some(4));
    assert_eq!(table.get(&key("a")).0, None);
}

#[test]
fn purge_removes_what_has_expired() {
    let mut table = AssociationTable::new(SHORT);
    table.insert(key("a"), 1);
    wait(2 * SHORT as u64 + 100);
    table.purge();
    // nothing is left to hand back
    assert_eq!(table.get(&key("a")), (None, vec![]));
}

#[test]
fn purge_keeps_what_has_not_expired() {
    let mut table = AssociationTable::new(LONG);
    table.insert(key("a"), 1);
    table.purge();
    assert!(table.contains(&key("a")));
    assert_eq!(table.get(&key("a")), (Some(1), vec![]));
}

#[test]
fn expired_entry_is_not_contained() {
    let mut table = AssociationTable::new(SHORT);
    table.insert(key("a"), 1);
    assert!(table.contains(&key("a")));
    wait(2 * SHORT as u64 + 100);
    assert!(!table.contains(&key("a")));
}

#[test]
fn empty_datagram_is_skipped() {
    let mut table = AssociationTable::new(LONG);
    let b = balancer(2);
    assert_eq!(dispatch(&mut table, &b, key("10.1.1.1:999"), 0), (Dispatch::Skip, vec![]));
    assert!(!table.contains(&key("10.1.1.1:999")));
}

#[test]
fn first_datagram_makes_an_association_with_the_best_server() {
    let mut table = AssociationTable::new(LONG);
    let b = balancer_preferring_second();
    assert_eq!(
        dispatch(&mut table, &b, key("10.1.1.1:999"), 12),
        (Dispatch::Associate { server: 1 }, vec![])
    );
    assert!(table.contains(&key("10.1.1.1:999")));
    assert_eq!(table.get(&key("10.1.1.1:999")).0, Some(1));
}

#[test]
fn association_affinity() {
    let mut table = AssociationTable::new(LONG);
    let mut b = balancer_preferring_second();
    let src = "10.1.1.1:999";
    assert_eq!(dispatch(&mut table, &b, key(src), 1).0, Dispatch::Associate { server: 1 });
    assert_eq!(dispatch(&mut table, &b, key(src), 1).0, Dispatch::Forward { server: 1 });
    // the balancer comes to prefer the first server
    b.check_update_score(1, None);
    b.check_update_score(1, None);
    b.check_update_score(0, Some(1));
    b.check_update_score(0, Some(1));
    b.check_update_score(0, Some(1));
    b.election_pass();
    assert_eq!(b.best_idx(), 0);
    // the client stays where it is, a new client goes to the first server
    assert_eq!(dispatch(&mut table, &b, key(src), 1).0, Dispatch::Forward { server: 1 });
    assert_eq!(
        dispatch(&mut table, &b, key("10.1.1.2:999"), 1).0,
        Dispatch::Associate { server: 0 }
    );
    assert_eq!(dispatch(&mut table, &b, key(src), 1).0, Dispatch::Forward { server: 1 });
    assert_eq!(dispatch(&mut table, &b, key("10.1.1.2:999"), 1).0, Dispatch::Forward { server: 0 });
}

#[test]
fn idle_purge() {
    let mut table = AssociationTable::new(SHORT);
    let b = balancer(1);
    let src = "192.0.2.1:5000";
    assert_eq!(dispatch(&mut table, &b, key(src), 8), (Dispatch::Associate { server: 0 }, vec![]));
    wait(2 * SHORT as u64 + 100);
    table.purge();
    assert!(!table.contains(&key(src)));
    // nothing is left of the old association: a new one is made
    assert_eq!(dispatch(&mut table, &b, key(src), 8), (Dispatch::Associate { server: 0 }, vec![]));
}

#[test]
fn idle_eviction_without_a_purge() {
    let mut table = AssociationTable::new(SHORT);
    let first = balancer(2);
    let src = "192.0.2.1:5000";
    assert_eq!(dispatch(&mut table, &first, key(src), 8).0, Dispatch::Associate { server: 0 });
    wait(2 * SHORT as u64 + 100);
    // the old association is handed back to be let go, a fresh one is made
    let second = balancer_preferring_second();
    assert_eq!(
        dispatch(&mut table, &second, key(src), 8),
        (Dispatch::Associate { server: 1 }, vec![(key(src), 0)])
    );
    assert_eq!(dispatch(&mut table, &second, key(src), 8).0, Dispatch::Forward { server: 1 });
}

#[test]
fn use_keeps_an_association_alive() {
    let mut table = AssociationTable::new(1200);
    let b = balancer(1);
    let src = "192.0.2.1:5000";
    assert_eq!(dispatch(&mut table, &b, key(src), 8).0, Dispatch::Associate { server: 0 });
    // idle for less than the time to live each time, for longer in sum
    for _ in 0..4 {
        wait(400);
        assert_eq!(dispatch(&mut table, &b, key(src), 8), (Dispatch::Forward { server: 0 }, vec![]));
    }
}

#[test]
fn reply_gating() {
    let mut table = AssociationTable::new(SHORT);
    let b = balancer(1);
    let src = "192.0.2.7:7";
    assert_eq!(reply_allowed(&mut table, &key(src)), (false, vec![]));
    dispatch(&mut table, &b, key(src), 3);
    assert_eq!(reply_allowed(&mut table, &key(src)), (true, vec![]));
    assert_eq!(reply_allowed(&mut table, &key("192.0.2.8:7")), (false, vec![]));
    wait(2 * SHORT as u64 + 100);
    assert_eq!(reply_allowed(&mut table, &key(src)), (false, vec![(key(src), 0)]));
    // a late reply makes no association
    assert!(!table.contains(&key(src)));
    assert_eq!(reply_allowed(&mut table, &key(src)), (false, vec![]));
}

#[test]
fn queues_hold_a_thousand_and_twenty_four() {
    assert_eq!(CHANNEL_CAPACITY, 1024);
}
