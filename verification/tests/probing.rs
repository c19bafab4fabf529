use peer_membership::dialer::{dial, dial_completed, DialOutcome};
use peer_membership::peer::{ConnectionState, ProbeOutcome, ProbeResult};
use peer_membership::prober::{add_time, apply_probe, ProbeConfig, ProbeStep, ProbeTimer};
use peer_membership::registry::Registry;

fn text(s: &str) -> String {
    s.to_string()
}

fn connected(peer: &str) -> Registry {
    let mut registry = Registry::new();
    registry.upsert(text(peer), text("a"), 0);
    dial(&mut registry, &text(peer), &text("a"));
    dial_completed(&mut registry, &text(peer), DialOutcome::Established);
    registry
}

fn timeout(peer: &str) -> ProbeResult {
    ProbeResult { peer: text(peer), outcome: ProbeOutcome::Timeout }
}

#[test]
fn default_settings() {
    let config = ProbeConfig::default();
    assert_eq!(config.interval, 1000);
    assert_eq!(config.timeout, 5000);
    assert_eq!(config.threshold, 1);
}

#[test]
fn add_time_adds_and_saturates() {
    assert_eq!(add_time(1000, 5000), 6000);
    assert_eq!(add_time(0, 0), 0);
    assert_eq!(add_time(u64::MAX, 0), u64::MAX);
    assert_eq!(add_time(u64::MAX - 1, 1), u64::MAX);
    assert_eq!(add_time(u64::MAX - 1, 2), u64::MAX);
    assert_eq!(add_time(u64::MAX, u64::MAX), u64::MAX);
}

#[test]
fn timer_starts_one_interval_ahead() {
    let config = ProbeConfig::default();
    assert_eq!(ProbeTimer::start(&config, 200), ProbeTimer::Resting { due: 1200 });
}

#[test]
fn timer_waits_until_probe_is_due() {
    let config = ProbeConfig::default();
    let mut timer = ProbeTimer::start(&config, 0);
    assert_eq!(timer.poll(&config, 0), ProbeStep::Wait { until: 1000 });
    assert_eq!(timer.poll(&config, 999), ProbeStep::Wait { until: 1000 });
    assert_eq!(timer, ProbeTimer::Resting { due: 1000 });
}

#[test]
fn timer_sends_when_due_then_waits_for_reply() {
    let config = ProbeConfig::default();
    let mut timer = ProbeTimer::start(&config, 0);
    assert_eq!(timer.poll(&config, 1000), ProbeStep::Send);
    assert_eq!(timer, ProbeTimer::Awaiting { sent: 1000 });
    assert_eq!(timer.poll(&config, 1000), ProbeStep::Wait { until: 6000 });
    assert_eq!(timer.poll(&config, 5999), ProbeStep::Wait { until: 6000 });
    assert_eq!(timer, ProbeTimer::Awaiting { sent: 1000 });
}

#[test]
fn timer_reports_timeout_at_the_deadline() {
    let config = ProbeConfig::default();
    let mut timer = ProbeTimer::Awaiting { sent: 1000 };
    assert_eq!(timer.poll(&config, 6000), ProbeStep::TimedOut);
    assert_eq!(timer, ProbeTimer::Resting { due: 7000 });
}

#[test]
fn reply_in_time_is_a_success_with_round_trip_time() {
    let config = ProbeConfig::default();
    let mut timer = ProbeTimer::Awaiting { sent: 1000 };
    assert_eq!(timer.reply(&config, 1042), Some(ProbeOutcome::Success(42)));
    assert_eq!(timer, ProbeTimer::Resting { due: 2042 });
}

#[test]
fn reply_just_before_the_deadline_is_a_success() {
    let config = ProbeConfig::default();
    let mut timer = ProbeTimer::Awaiting { sent: 1000 };
    assert_eq!(timer.reply(&config, 5999), Some(ProbeOutcome::Success(4999)));
}

#[test]
fn reply_at_the_deadline_is_a_timeout() {
    let config = ProbeConfig::default();
    let mut timer = ProbeTimer::Awaiting { sent: 1000 };
    assert_eq!(timer.reply(&config, 6000), Some(ProbeOutcome::Timeout));
    assert_eq!(timer, ProbeTimer::Resting { due: 7000 });
}

#[test]
fn reply_stamped_before_the_probe_has_no_round_trip_time() {
    let config = ProbeConfig::default();
    let mut timer = ProbeTimer::Awaiting { sent: 1000 };
    assert_eq!(timer.reply(&config, 900), Some(ProbeOutcome::Success(0)));
    assert_eq!(timer, ProbeTimer::Resting { due: 1900 });
}

#[test]
fn reply_without_probe_is_dropped() {
    let config = ProbeConfig::default();
    let mut timer = ProbeTimer::Resting { due: 1000 };
    assert_eq!(timer.reply(&config, 500), None);
    assert_eq!(timer, ProbeTimer::Resting { due: 1000 });
}

#[test]
fn timer_near_the_end_of_time_saturates() {
    let config = ProbeConfig::default();
    let mut timer = ProbeTimer::Awaiting { sent: u64::MAX - 10 };
    assert_eq!(timer.poll(&config, u64::MAX - 1), ProbeStep::Wait { until: u64::MAX });
    assert_eq!(timer.poll(&config, u64::MAX), ProbeStep::TimedOut);
    assert_eq!(timer, ProbeTimer::Resting { due: u64::MAX });
}

#[test]
fn silent_peer_is_disconnected_one_interval_and_one_timeout_after_last_reply() {
    let config = ProbeConfig::default();
    let mut registry = connected("p");
    let last_reply: u64 = 10_000;
    let mut timer = ProbeTimer::start(&config, last_reply);
    let mut now: u64 = last_reply;
    let mut sent: u32 = 0;
    loop {
        match timer.poll(&config, now) {
            ProbeStep::Wait { until } => now = until,
            ProbeStep::Send => sent += 1,
            ProbeStep::TimedOut => break,
        }
    }
    assert_eq!(sent, 1);
    assert_eq!(now, last_reply + config.interval + config.timeout);
    assert!(apply_probe(&mut registry, &config, &timeout("p")));
    assert_eq!(registry.state(&text("p")), Some(ConnectionState::Disconnected));
    assert_eq!(registry.get(&text("p")).unwrap().consecutive_timeouts, 1);
}

#[test]
fn threshold_counts_timeouts_in_a_row() {
    let config = ProbeConfig { interval: 1000, timeout: 5000, threshold: 3 };
    let mut registry = connected("p");
    apply_probe(&mut registry, &config, &timeout("p"));
    apply_probe(&mut registry, &config, &timeout("p"));
    assert_eq!(registry.state(&text("p")), Some(ConnectionState::Connected));
    let reply = ProbeResult { peer: text("p"), outcome: ProbeOutcome::Success(8) };
    apply_probe(&mut registry, &config, &reply);
    assert_eq!(registry.get(&text("p")).unwrap().consecutive_timeouts, 0);
    apply_probe(&mut registry, &config, &timeout("p"));
    apply_probe(&mut registry, &config, &timeout("p"));
    assert_eq!(registry.state(&text("p")), Some(ConnectionState::Connected));
    apply_probe(&mut registry, &config, &timeout("p"));
    assert_eq!(registry.state(&text("p")), Some(ConnectionState::Disconnected));
    assert_eq!(registry.get(&text("p")).unwrap().consecutive_timeouts, 3);
}

#[test]
fn unreachable_bypasses_the_threshold() {
    let config = ProbeConfig { interval: 1000, timeout: 5000, threshold: 100 };
    let mut registry = connected("p");
    let dropped = ProbeResult { peer: text("p"), outcome: ProbeOutcome::Unreachable };
    assert!(apply_probe(&mut registry, &config, &dropped));
    assert_eq!(registry.state(&text("p")), Some(ConnectionState::Disconnected));
    assert_eq!(registry.get(&text("p")).unwrap().consecutive_timeouts, 0);
}

#[test]
fn timeout_of_a_peer_that_is_not_connected_only_counts() {
    let config = ProbeConfig::default();
    let mut registry = Registry::new();
    registry.upsert(text("p"), text("a"), 0);
    apply_probe(&mut registry, &config, &timeout("p"));
    let record = registry.get(&text("p")).unwrap();
    assert_eq!(record.connection_state, ConnectionState::Unknown);
    assert_eq!(record.consecutive_timeouts, 1);
}

#[test]
fn probe_result_for_peer_without_record_is_dropped() {
    let config = ProbeConfig::default();
    let mut registry = connected("p");
    assert!(!apply_probe(&mut registry, &config, &timeout("q")));
    assert_eq!(registry.state(&text("p")), Some(ConnectionState::Connected));
    assert_eq!(registry.len(), 1);
}
