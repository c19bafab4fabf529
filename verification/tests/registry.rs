use peer_membership::peer::{ConnectionState, PeerRecord, ProbeOutcome, ProbeResult};
use peer_membership::registry::{contact, Registry};

fn text(s: &str) -> String {
    s.to_string()
}

fn probe(peer: &str, outcome: ProbeOutcome) -> ProbeResult {
    ProbeResult { peer: text(peer), outcome }
}

#[test]
fn new_registry_is_empty() {
    let registry = Registry::new();
    assert_eq!(registry.len(), 0);
    assert!(registry.is_empty());
    assert!(registry.all().is_empty());
    assert!(registry.get(&text("node1")).is_none());
    assert!(!registry.contains(&text("node1")));
}

#[test]
fn added_node_is_found_again() {
    let mut registry = Registry::new();
    registry.upsert(text("node1"), text("127.0.0.1:8080"), 0);
    let node = registry.get(&text("node1")).expect("node1 was added");
    assert_eq!(node.id, "node1");
    assert_eq!(node.address, "127.0.0.1:8080");
    assert!(registry.get(&text("node2")).is_none());
}

#[test]
fn fresh_record_has_no_history() {
    let record = PeerRecord::new(text("p"), text("tcp/10.0.0.1/4001"), 42);
    assert_eq!(record.id, "p");
    assert_eq!(record.address, "tcp/10.0.0.1/4001");
    assert_eq!(record.connection_state, ConnectionState::Unknown);
    assert_eq!(record.last_seen, 42);
    assert_eq!(record.last_rtt, None);
    assert_eq!(record.consecutive_timeouts, 0);
}

#[test]
fn duplicate_copies_every_field() {
    let mut record = PeerRecord::new(text("p"), text("a"), 7);
    record.connection_state = ConnectionState::Connected;
    record.last_rtt = Some(12);
    record.consecutive_timeouts = 3;
    let copy = record.duplicate();
    assert_eq!(copy.id, "p");
    assert_eq!(copy.address, "a");
    assert_eq!(copy.connection_state, ConnectionState::Connected);
    assert_eq!(copy.last_seen, 7);
    assert_eq!(copy.last_rtt, Some(12));
    assert_eq!(copy.consecutive_timeouts, 3);
}

#[test]
fn upsert_creates_then_refreshes() {
    let mut registry = Registry::new();
    let first = registry.upsert(text("p"), text("a"), 10);
    assert_eq!(first.connection_state, ConnectionState::Unknown);
    assert_eq!(first.last_seen, 10);
    assert_eq!(first.address, "a");
    assert!(registry.record_probe(&probe("p", ProbeOutcome::Success(30))));
    assert!(registry.record_probe(&probe("p", ProbeOutcome::Timeout)));
    let second = registry.upsert(text("p"), text("b"), 20);
    assert_eq!(second.id, "p");
    assert_eq!(second.address, "b");
    assert_eq!(second.last_seen, 20);
    assert_eq!(second.connection_state, ConnectionState::Connected);
    assert_eq!(second.last_rtt, Some(30));
    assert_eq!(second.consecutive_timeouts, 1);
    assert_eq!(registry.len(), 1);
}

#[test]
fn one_record_per_peer() {
    let mut registry = Registry::new();
    for round in 0..5u64 {
        registry.upsert(text("p"), text("a"), round);
        registry.upsert(text("q"), text("b"), round);
        registry.upsert(text("p"), text("c"), round);
    }
    assert_eq!(registry.len(), 2);
    let all = registry.all();
    assert_eq!(all.len(), 2);
    assert_eq!(all[0].id, "p");
    assert_eq!(all[0].address, "c");
    assert_eq!(all[1].id, "q");
    assert_eq!(all[1].address, "b");
}

#[test]
fn upsert_leaves_other_peers_alone() {
    let mut registry = Registry::new();
    registry.upsert(text("p"), text("a"), 1);
    registry.upsert(text("q"), text("b"), 2);
    registry.upsert(text("q"), text("c"), 3);
    let p = registry.get(&text("p")).unwrap();
    assert_eq!(p.address, "a");
    assert_eq!(p.last_seen, 1);
}

#[test]
fn snapshot_is_not_live() {
    let mut registry = Registry::new();
    registry.upsert(text("p"), text("a"), 1);
    let snapshot = registry.all();
    registry.upsert(text("p"), text("b"), 2);
    registry.upsert(text("q"), text("c"), 3);
    assert_eq!(snapshot.len(), 1);
    assert_eq!(snapshot[0].address, "a");
    assert_eq!(snapshot[0].last_seen, 1);
}

#[test]
fn get_returns_a_copy() {
    let mut registry = Registry::new();
    registry.upsert(text("p"), text("a"), 1);
    let mut copy = registry.get(&text("p")).unwrap();
    copy.address = text("elsewhere");
    copy.connection_state = ConnectionState::Connected;
    let again = registry.get(&text("p")).unwrap();
    assert_eq!(again.address, "a");
    assert_eq!(again.connection_state, ConnectionState::Unknown);
}

#[test]
fn state_of_known_and_unknown_peer() {
    let mut registry = Registry::new();
    registry.upsert(text("p"), text("a"), 1);
    assert_eq!(registry.state(&text("p")), Some(ConnectionState::Unknown));
    assert_eq!(registry.state(&text("q")), None);
}

#[test]
fn probe_success_connects_and_resets() {
    let mut registry = Registry::new();
    registry.upsert(text("p"), text("a"), 1);
    registry.record_probe(&probe("p", ProbeOutcome::Timeout));
    registry.record_probe(&probe("p", ProbeOutcome::Timeout));
    assert_eq!(registry.get(&text("p")).unwrap().consecutive_timeouts, 2);
    assert_eq!(registry.state(&text("p")), Some(ConnectionState::Unknown));
    registry.record_probe(&probe("p", ProbeOutcome::Success(17)));
    let record = registry.get(&text("p")).unwrap();
    assert_eq!(record.connection_state, ConnectionState::Connected);
    assert_eq!(record.last_rtt, Some(17));
    assert_eq!(record.consecutive_timeouts, 0);
    assert_eq!(record.last_seen, 1);
    assert_eq!(record.address, "a");
}

#[test]
fn probe_timeout_only_counts() {
    let mut registry = Registry::new();
    registry.upsert(text("p"), text("a"), 1);
    registry.record_probe(&probe("p", ProbeOutcome::Success(5)));
    registry.record_probe(&probe("p", ProbeOutcome::Timeout));
    let record = registry.get(&text("p")).unwrap();
    assert_eq!(record.connection_state, ConnectionState::Connected);
    assert_eq!(record.consecutive_timeouts, 1);
    assert_eq!(record.last_rtt, Some(5));
}

#[test]
fn probe_unreachable_disconnects_at_once() {
    let mut registry = Registry::new();
    registry.upsert(text("p"), text("a"), 1);
    registry.record_probe(&probe("p", ProbeOutcome::Success(5)));
    registry.record_probe(&probe("p", ProbeOutcome::Unreachable));
    let record = registry.get(&text("p")).unwrap();
    assert_eq!(record.connection_state, ConnectionState::Disconnected);
    assert_eq!(record.consecutive_timeouts, 0);
    assert_eq!(record.last_rtt, Some(5));
}

#[test]
fn probe_success_does_not_revive_a_disconnected_peer() {
    let mut registry = Registry::new();
    registry.upsert(text("p"), text("a"), 1);
    registry.record_probe(&probe("p", ProbeOutcome::Unreachable));
    registry.record_probe(&probe("p", ProbeOutcome::Success(9)));
    let record = registry.get(&text("p")).unwrap();
    assert_eq!(record.connection_state, ConnectionState::Disconnected);
    assert_eq!(record.last_rtt, Some(9));
}

#[test]
fn probe_of_unknown_peer_changes_nothing() {
    let mut registry = Registry::new();
    registry.upsert(text("p"), text("a"), 1);
    assert!(!registry.record_probe(&probe("q", ProbeOutcome::Unreachable)));
    assert_eq!(registry.len(), 1);
    assert_eq!(registry.state(&text("p")), Some(ConnectionState::Unknown));
}

#[test]
fn probe_touches_only_its_peer() {
    let mut registry = Registry::new();
    registry.upsert(text("p"), text("a"), 1);
    registry.upsert(text("q"), text("b"), 1);
    registry.record_probe(&probe("q", ProbeOutcome::Success(3)));
    assert_eq!(registry.state(&text("p")), Some(ConnectionState::Unknown));
    assert_eq!(registry.get(&text("p")).unwrap().last_rtt, None);
    assert_eq!(registry.state(&text("q")), Some(ConnectionState::Connected));
}

#[test]
fn contact_table() {
    assert_eq!(contact(ConnectionState::Unknown), ConnectionState::Connected);
    assert_eq!(contact(ConnectionState::Dialing), ConnectionState::Connected);
    assert_eq!(contact(ConnectionState::Connected), ConnectionState::Connected);
    assert_eq!(contact(ConnectionState::Disconnected), ConnectionState::Disconnected);
}
