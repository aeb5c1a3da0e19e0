use tx_broadcast::api::{platform, JOINED_NETWORK, TARGET_PEERS};
use tx_broadcast::chain::{Network, PeerAddress};
use tx_broadcast::codec::encode;
use tx_broadcast::discovery::AddressBook;
use tx_broadcast::messages::Outgoing;
use tx_broadcast::network::WriteHandle;
use tx_broadcast::peers::{
    FollowUp, PeerManager, SendToPeer, BROADCAST_INTERVAL_SECS, BROADCAST_THRESHOLD,
    CONNECT_TIMEOUT_SECS, MAINTENANCE_PAUSE_SECS,
};
use tx_broadcast::transaction::{Transaction, TxError};

const TX_HEX: &str = "0100000001a15d57094aa7a21a28cb20b59aab8fc7d1149a3bdbcddba9c622e4f5f6a99ece010000006c493046022100f93bb0e7d8db7bd46e40132d1f8242026e045f03a0efe71bbb8e3f475e970d790221009337cd7f1f929f00cc6ff01f03729b069a7c21b59b1736ddfee5db5946c5da8c0121033b9b137ee87d5a812d6f506efdd37f0affa7ffc310711c06c7f3e097c9447c52ffffffff0100e1f505000000001976a9140389035a9225b3839e2bbf32d826a1e222031fd888ac00000000";

fn target() -> Transaction {
    Transaction::from_hex(TX_HEX).unwrap()
}

fn ip(n: u128) -> u128 {
    0xffff_0a00_0000 + n
}

fn addr(n: u128) -> PeerAddress {
    PeerAddress { ip: ip(n), port: 18333 }
}

fn manager(target_size: usize) -> PeerManager {
    PeerManager::new(target_size, target(), Network::Test)
}

fn register(manager: &mut PeerManager, n: u128) {
    for i in 0..n {
        manager.peer.insert(addr(100 + i), SendToPeer::new(WriteHandle::new(Network::Test)));
    }
}

fn announcement() -> Vec<u8> {
    encode(Network::Test.magic(), &Outgoing::Inv(vec![target().txid()]))
}

fn drain_all(manager: &mut PeerManager) -> Vec<(PeerAddress, Vec<u8>)> {
    let mut frames = Vec::new();
    for peer in manager.peer.addresses() {
        while let Some(frame) = manager.peer.next_frame(peer) {
            frames.push((peer, frame));
        }
    }
    frames
}

fn sorted(mut addrs: Vec<PeerAddress>) -> Vec<PeerAddress> {
    addrs.sort_by_key(|a| (a.ip, a.port));
    addrs
}

#[test]
fn the_timing_constants_are_the_documented_ones() {
    assert_eq!(BROADCAST_THRESHOLD, 8);
    assert_eq!(BROADCAST_INTERVAL_SECS, 8);
    assert_eq!(MAINTENANCE_PAUSE_SECS, 1);
    assert_eq!(CONNECT_TIMEOUT_SECS, 3);
    assert_eq!(TARGET_PEERS, 10);
    assert_eq!(JOINED_NETWORK, Network::Test);
}

#[test]
fn a_new_manager_has_nothing() {
    let manager = manager(10);
    assert_eq!(manager.max_outbound, 10);
    assert_eq!(manager.network, Network::Test);
    assert_eq!(manager.tx, target());
    assert_eq!(manager.peer.len(), 0);
    assert_eq!(manager.book.len(), 0);
    assert_eq!(manager.book.network(), Network::Test);
    assert!(!manager.completed);
}

#[test]
fn the_entry_point_prepares_a_manager_for_the_test_network() {
    let manager = platform(String::from(TX_HEX)).unwrap();
    assert_eq!(manager.max_outbound, 10);
    assert_eq!(manager.network, Network::Test);
    assert_eq!(manager.tx, target());
    assert_eq!(manager.peer.len(), 0);
    assert_eq!(manager.book.len(), 0);
    assert!(!manager.completed);
}

#[test]
fn the_entry_point_rejects_what_is_no_transaction() {
    assert_eq!(platform(String::from("zz")).unwrap_err(), TxError::InvalidHex);
    assert_eq!(platform(String::from("abc")).unwrap_err(), TxError::InvalidHex);
    assert_eq!(platform(String::from("00ff")).unwrap_err(), TxError::Malformed);
}

#[test]
fn a_pass_without_candidates_asks_for_discovery() {
    let mut manager = manager(10);
    let plan = manager.maintain_peers();
    assert_eq!(plan.connect, vec![]);
    assert_eq!(plan.next, FollowUp::Discover);
}

#[test]
fn a_pass_takes_one_candidate_per_missing_peer_from_the_end() {
    let mut manager = manager(3);
    manager.book.absorb(&vec![ip(1), ip(2), ip(3), ip(4), ip(5)]);
    let plan = manager.maintain_peers();
    assert_eq!(plan.connect, vec![addr(5), addr(4), addr(3)]);
    assert_eq!(plan.next, FollowUp::Sleep);
    assert_eq!(manager.book.len(), 2);
    let plan = manager.maintain_peers();
    assert_eq!(plan.connect, vec![addr(2), addr(1)]);
    assert_eq!(plan.next, FollowUp::Discover);
    assert_eq!(manager.book.len(), 0);
}

#[test]
fn a_pass_counts_the_registered_peers() {
    let mut manager = manager(10);
    register(&mut manager, 8);
    manager.book.absorb(&vec![ip(1), ip(2), ip(3), ip(4), ip(5)]);
    let plan = manager.maintain_peers();
    assert_eq!(plan.connect, vec![addr(5), addr(4)]);
    assert_eq!(plan.next, FollowUp::Sleep);
    assert_eq!(manager.book.len(), 3);
    assert_eq!(manager.peer.len(), 8);
}

#[test]
fn a_full_table_rests() {
    let mut manager = manager(10);
    register(&mut manager, 10);
    manager.book.absorb(&vec![ip(1), ip(2)]);
    let plan = manager.maintain_peers();
    assert_eq!(plan.connect, vec![]);
    assert_eq!(plan.next, FollowUp::Sleep);
    assert_eq!(manager.book.len(), 2);
    register(&mut manager, 12);
    let plan = manager.maintain_peers();
    assert_eq!(plan.connect, vec![]);
    assert_eq!(plan.next, FollowUp::Sleep);
}

#[test]
fn a_full_table_rests_even_without_candidates() {
    let mut manager = manager(2);
    register(&mut manager, 2);
    let plan = manager.maintain_peers();
    assert_eq!(plan.connect, vec![]);
    assert_eq!(plan.next, FollowUp::Sleep);
    let mut none_wanted = PeerManager::new(0, target(), Network::Main);
    assert_eq!(none_wanted.maintain_peers().next, FollowUp::Sleep);
}

#[test]
fn a_pass_never_starts_more_than_the_table_is_short_of() {
    for live in 0..12u128 {
        let mut manager = manager(10);
        register(&mut manager, live);
        manager.book.absorb(&(0..40).map(ip).collect());
        let plan = manager.maintain_peers();
        assert_eq!(plan.connect.len() as u128, 10u128.saturating_sub(live));
        assert!(manager.peer.len() + plan.connect.len() <= 10.max(live as usize));
    }
}

#[test]
fn discovery_queues_each_new_address_once() {
    let mut book = AddressBook::new(Network::Test);
    book.absorb(&vec![ip(1), ip(2), ip(1), ip(3), ip(2)]);
    assert_eq!(book.len(), 3);
    book.absorb(&vec![ip(3), ip(4), ip(1)]);
    assert_eq!(book.len(), 4);
    assert_eq!(book.pop(), Some(addr(4)));
    assert_eq!(book.pop(), Some(addr(3)));
    assert_eq!(book.pop(), Some(addr(2)));
    assert_eq!(book.pop(), Some(addr(1)));
    assert_eq!(book.pop(), None);
    assert_eq!(book.len(), 0);
}

#[test]
fn an_address_already_tried_is_not_queued_again() {
    let mut manager = manager(2);
    manager.discovered(&vec![Some(vec![ip(1), ip(2), ip(3)])]);
    let first = manager.maintain_peers();
    assert_eq!(first.connect.len(), 2);
    assert_eq!(manager.book.len(), 1);
    manager.discovered(&vec![Some(vec![ip(1), ip(2), ip(3), ip(4)]), Some(vec![ip(2), ip(4)])]);
    assert_eq!(manager.book.len(), 2);
    let mut second = Vec::new();
    while let Some(next) = manager.book.pop() {
        second.push(next);
    }
    for tried in &first.connect {
        assert!(!second.contains(tried));
    }
    let mut all = first.connect.clone();
    all.extend(second);
    assert_eq!(sorted(all), vec![addr(1), addr(2), addr(3), addr(4)]);
}

#[test]
fn a_failed_seed_is_skipped() {
    let mut manager = manager(10);
    manager.discovered(&vec![None, Some(vec![ip(1), ip(2)]), None, Some(vec![ip(3)])]);
    assert_eq!(manager.book.len(), 3);
    let plan = manager.maintain_peers();
    assert_eq!(sorted(plan.connect), vec![addr(1), addr(2), addr(3)]);
    assert_eq!(plan.next, FollowUp::Discover);
    manager.discovered(&vec![None, None, None]);
    assert_eq!(manager.book.len(), 0);
    manager.discovered(&vec![]);
    assert_eq!(manager.book.len(), 0);
}

#[test]
fn discovered_addresses_are_on_the_port_of_the_network() {
    let mut main = PeerManager::new(10, target(), Network::Main);
    main.discovered(&vec![Some(vec![ip(1)])]);
    assert_eq!(main.maintain_peers().connect, vec![PeerAddress { ip: ip(1), port: 8333 }]);
    let mut test = manager(10);
    test.discovered(&vec![Some(vec![ip(1)])]);
    assert_eq!(test.maintain_peers().connect, vec![PeerAddress { ip: ip(1), port: 18333 }]);
}

#[test]
fn shuffling_keeps_the_candidates() {
    let mut book = AddressBook::new(Network::Test);
    let ips: Vec<u128> = (0..50).map(ip).collect();
    book.absorb(&ips);
    book.shuffle();
    assert_eq!(book.len(), 50);
    let mut popped = Vec::new();
    while let Some(next) = book.pop() {
        popped.push(next);
    }
    assert_eq!(sorted(popped), (0..50).map(addr).collect::<Vec<PeerAddress>>());
    book.absorb(&ips);
    assert_eq!(book.len(), 0);
}

#[test]
fn shuffling_changes_the_order() {
    let mut book = AddressBook::new(Network::Test);
    let ips: Vec<u128> = (0..60).map(ip).collect();
    book.absorb(&ips);
    book.shuffle();
    let mut popped = Vec::new();
    while let Some(next) = book.pop() {
        popped.push(next);
    }
    let unshuffled: Vec<PeerAddress> = (0..60).rev().map(addr).collect();
    assert_ne!(popped, unshuffled);
}

#[test]
fn the_ticks_reach_more_than_one_peer() {
    let mut manager = manager(10);
    register(&mut manager, 12);
    let first = manager.broadcast_tx().unwrap();
    let mut another = false;
    for _ in 0..300 {
        another = another || manager.broadcast_tx().unwrap() != first;
    }
    assert!(another);
}

#[test]
fn no_announcement_with_eight_peers_or_fewer() {
    for live in 0..9u128 {
        let mut manager = manager(10);
        register(&mut manager, live);
        assert_eq!(manager.broadcast_tx(), None);
        assert!(!manager.announce(addr(100)));
        assert_eq!(drain_all(&mut manager), vec![]);
        assert_eq!(manager.peer.len() as u128, live);
    }
}

#[test]
fn with_nine_peers_one_tick_sends_one_announcement() {
    let mut manager = manager(10);
    register(&mut manager, 9);
    let picked = manager.broadcast_tx().unwrap();
    assert!(manager.peer.contains(picked));
    assert_eq!(manager.peer.len(), 9);
    assert_eq!(drain_all(&mut manager), vec![(picked, announcement())]);
}

#[test]
fn every_tick_sends_one_announcement_to_a_registered_peer() {
    let mut manager = manager(10);
    register(&mut manager, 12);
    let mut picked = Vec::new();
    for _ in 0..20 {
        picked.push(manager.broadcast_tx().unwrap());
    }
    let frames = drain_all(&mut manager);
    assert_eq!(frames.len(), 20);
    for (peer, frame) in &frames {
        assert!(picked.contains(peer));
        assert_eq!(frame, &announcement());
    }
    for peer in &picked {
        let sent = picked.iter().filter(|p| *p == peer).count();
        let queued = frames.iter().filter(|(p, _)| p == peer).count();
        assert_eq!(sent, queued);
    }
}

#[test]
fn the_tick_announces_to_the_peer_that_was_picked() {
    let mut manager = manager(10);
    register(&mut manager, 9);
    assert!(manager.announce(addr(104)));
    assert!(manager.announce(addr(104)));
    assert!(manager.announce(addr(100)));
    assert!(!manager.announce(addr(1)));
    assert_eq!(
        drain_all(&mut manager),
        vec![
            (addr(100), announcement()),
            (addr(104), announcement()),
            (addr(104), announcement()),
        ]
    );
}

#[test]
fn the_end_of_a_connection_frees_its_entry() {
    let mut manager = manager(10);
    register(&mut manager, 9);
    assert!(manager.announce(addr(103)));
    assert!(manager.disconnected(addr(101)));
    assert!(!manager.disconnected(addr(101)));
    assert_eq!(manager.peer.len(), 8);
    assert!(!manager.peer.contains(addr(101)));
    for i in [0u128, 2, 3, 4, 5, 6, 7, 8] {
        assert!(manager.peer.contains(addr(100 + i)));
    }
    assert_eq!(manager.broadcast_tx(), None);
    assert_eq!(drain_all(&mut manager), vec![(addr(103), announcement())]);
    let plan = manager.maintain_peers();
    assert_eq!(plan.connect, vec![]);
    assert_eq!(plan.next, FollowUp::Discover);
}
