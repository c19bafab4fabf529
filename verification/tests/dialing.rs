use peer_membership::dialer::{cancel_dials, dial, dial_completed, DialError, DialOutcome};
use peer_membership::peer::{ConnectionState, ProbeOutcome, ProbeResult};
use peer_membership::registry::Registry;

fn text(s: &str) -> String {
    s.to_string()
}

fn registry_with(peers: &[&str]) -> Registry {
    let mut registry = Registry::new();
    for peer in peers {
        registry.upsert(text(peer), format!("addr-{}", peer), 0);
    }
    registry
}

#[test]
fn dial_marks_peer_and_asks_transport() {
    let mut registry = registry_with(&["p"]);
    let request = dial(&mut registry, &text("p"), &text("a")).expect("an unknown-state peer is dialed");
    assert_eq!(request.peer, "p");
    assert_eq!(request.address, "a");
    assert_eq!(registry.state(&text("p")), Some(ConnectionState::Dialing));
}

#[test]
fn second_dial_before_completion_is_dropped() {
    let mut registry = registry_with(&["p"]);
    let first = dial(&mut registry, &text("p"), &text("a"));
    let second = dial(&mut registry, &text("p"), &text("a"));
    let third = dial(&mut registry, &text("p"), &text("b"));
    assert!(first.is_some());
    assert!(second.is_none());
    assert!(third.is_none());
    assert_eq!(registry.state(&text("p")), Some(ConnectionState::Dialing));
}

#[test]
fn dial_of_connected_peer_is_dropped() {
    let mut registry = registry_with(&["p"]);
    dial(&mut registry, &text("p"), &text("a"));
    dial_completed(&mut registry, &text("p"), DialOutcome::Established);
    assert!(dial(&mut registry, &text("p"), &text("a")).is_none());
    assert_eq!(registry.state(&text("p")), Some(ConnectionState::Connected));
}

#[test]
fn dial_of_disconnected_peer_goes_ahead() {
    let mut registry = registry_with(&["p"]);
    dial(&mut registry, &text("p"), &text("a"));
    dial_completed(&mut registry, &text("p"), DialOutcome::Failed(DialError::Refused));
    assert_eq!(registry.state(&text("p")), Some(ConnectionState::Disconnected));
    let again = dial(&mut registry, &text("p"), &text("b")).expect("a disconnected peer may be dialed");
    assert_eq!(again.address, "b");
    assert_eq!(registry.state(&text("p")), Some(ConnectionState::Dialing));
}

#[test]
fn dial_of_peer_without_record_is_dropped() {
    let mut registry = registry_with(&["p"]);
    assert!(dial(&mut registry, &text("q"), &text("a")).is_none());
    assert_eq!(registry.len(), 1);
    assert!(!registry.contains(&text("q")));
}

#[test]
fn dial_touches_only_its_peer() {
    let mut registry = registry_with(&["p", "q"]);
    dial(&mut registry, &text("q"), &text("a"));
    assert_eq!(registry.state(&text("p")), Some(ConnectionState::Unknown));
    assert_eq!(registry.state(&text("q")), Some(ConnectionState::Dialing));
}

#[test]
fn established_dial_connects() {
    let mut registry = registry_with(&["p"]);
    registry.record_probe(&ProbeResult { peer: text("p"), outcome: ProbeOutcome::Timeout });
    dial(&mut registry, &text("p"), &text("a"));
    let failure = dial_completed(&mut registry, &text("p"), DialOutcome::Established);
    assert_eq!(failure, None);
    let record = registry.get(&text("p")).unwrap();
    assert_eq!(record.connection_state, ConnectionState::Connected);
    assert_eq!(record.consecutive_timeouts, 0);
    assert_eq!(record.last_rtt, None);
}

#[test]
fn malformed_address_is_reported() {
    let mut registry = registry_with(&["p"]);
    dial(&mut registry, &text("p"), &text("not an address"));
    let failure = dial_completed(
        &mut registry,
        &text("p"),
        DialOutcome::Failed(DialError::MalformedAddress),
    );
    assert_eq!(failure, Some(DialError::MalformedAddress));
    assert_eq!(registry.state(&text("p")), Some(ConnectionState::Disconnected));
}

#[test]
fn refused_dial_is_reported() {
    let mut registry = registry_with(&["p"]);
    dial(&mut registry, &text("p"), &text("a"));
    let failure = dial_completed(&mut registry, &text("p"), DialOutcome::Failed(DialError::Refused));
    assert_eq!(failure, Some(DialError::Refused));
    assert_eq!(registry.state(&text("p")), Some(ConnectionState::Disconnected));
}

#[test]
fn transport_error_is_reported() {
    let mut registry = registry_with(&["p"]);
    dial(&mut registry, &text("p"), &text("a"));
    let failure = dial_completed(
        &mut registry,
        &text("p"),
        DialOutcome::Failed(DialError::Transport),
    );
    assert_eq!(failure, Some(DialError::Transport));
    assert_eq!(registry.state(&text("p")), Some(ConnectionState::Disconnected));
}

#[test]
fn completion_for_peer_without_record_is_dropped() {
    let mut registry = registry_with(&["p"]);
    let failure = dial_completed(&mut registry, &text("q"), DialOutcome::Failed(DialError::Refused));
    assert_eq!(failure, None);
    assert_eq!(registry.len(), 1);
    assert_eq!(registry.state(&text("p")), Some(ConnectionState::Unknown));
}

#[test]
fn late_success_does_not_revive_a_cancelled_dial() {
    let mut registry = registry_with(&["p"]);
    dial(&mut registry, &text("p"), &text("a"));
    cancel_dials(&mut registry);
    dial_completed(&mut registry, &text("p"), DialOutcome::Established);
    assert_eq!(registry.state(&text("p")), Some(ConnectionState::Disconnected));
}

#[test]
fn cancel_leaves_no_peer_dialing() {
    let mut registry = registry_with(&["p", "q", "r", "s"]);
    dial(&mut registry, &text("p"), &text("a"));
    dial(&mut registry, &text("q"), &text("a"));
    dial_completed(&mut registry, &text("q"), DialOutcome::Established);
    dial(&mut registry, &text("s"), &text("a"));
    cancel_dials(&mut registry);
    assert_eq!(registry.state(&text("p")), Some(ConnectionState::Disconnected));
    assert_eq!(registry.state(&text("q")), Some(ConnectionState::Connected));
    assert_eq!(registry.state(&text("r")), Some(ConnectionState::Unknown));
    assert_eq!(registry.state(&text("s")), Some(ConnectionState::Disconnected));
    assert_eq!(registry.len(), 4);
}
