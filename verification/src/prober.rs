//! The liveness prober: the timer that decides when a connected peer is
//! probed and when a probe has timed out, and the rule by which probe
//! outcomes declare a peer disconnected.

use vstd::prelude::*;
use crate::peer::{ConnectionState, PeerRecordView, ProbeOutcome, ProbeResult};
use crate::registry::{
    Registry, after_probe, knows, lemma_update_peer, lemma_update_peer_at, probed, unique_ids,
    update_peer, with_state,
};

verus! {

/// The prober's settings. Times are in milliseconds.
#[derive(Clone, Copy, Debug, PartialEq, Eq, Structural)]
pub struct ProbeConfig {
    /// The pause between the end of one probe and the start of the next.
    pub interval: u64,
    /// How long a reply to a probe is waited for.
    pub timeout: u64,
    /// The number of timeouts in a row after which a peer is declared
    /// disconnected.
    pub threshold: u64,
}

/// The settings used where none are given: a probe every second, five seconds
/// for the reply, and a peer declared disconnected at the first timeout.
pub open spec fn default_config() -> ProbeConfig {
    ProbeConfig { interval: 1000, timeout: 5000, threshold: 1 }
}

impl Default for ProbeConfig {
    fn default() -> (config: ProbeConfig)
        ensures
            config == default_config(),
    {
        ProbeConfig { interval: 1000, timeout: 5000, threshold: 1 }
    }
}

/// The time `delay` after `start`, or the largest time that can be told if
/// that lies beyond it.
pub open spec fn time_after(start: u64, delay: u64) -> u64 {
    if start + delay <= u64::MAX {
        (start + delay) as u64
    } else {
        u64::MAX
    }
}

/// The time that has passed at `now` since `start`; none if `now` is earlier.
pub open spec fn time_since(start: u64, now: u64) -> u64 {
    if now >= start {
        (now - start) as u64
    } else {
        0
    }
}

/// The time `delay` after `start`, or the largest time that can be told if
/// that lies beyond it.
pub fn add_time(start: u64, delay: u64) -> (time: u64)
    ensures
        time == time_after(start, delay),
{
    if delay <= u64::MAX - start {
        start + delay
    } else {
        u64::MAX
    }
}

/// The timer of the prober of one connected peer.
#[derive(Clone, Copy, Debug, PartialEq, Eq, Structural)]
pub enum ProbeTimer {
    /// No probe is in flight; the next one is due at the given time.
    Resting { due: u64 },
    /// A probe was sent at the given time and no reply has come yet.
    Awaiting { sent: u64 },
}

/// What the prober is to do after it has looked at its timer.
#[derive(Clone, Copy, Debug, PartialEq, Eq, Structural)]
pub enum ProbeStep {
    /// Nothing before the given time.
    Wait { until: u64 },
    /// Send a probe now.
    Send,
    /// The probe in flight has timed out: report the timeout.
    TimedOut,
}

/// The timer of a prober that starts at `now`, or whose probe was answered at
/// `now`: the next probe is due one interval later.
pub open spec fn rested(config: ProbeConfig, now: u64) -> ProbeTimer {
    ProbeTimer::Resting { due: time_after(now, config.interval) }
}

/// The timer after the prober looked at it at `now`.
pub open spec fn timer_after_poll(timer: ProbeTimer, config: ProbeConfig, now: u64) -> ProbeTimer {
    match timer {
        ProbeTimer::Resting { due } => if now >= due {
            ProbeTimer::Awaiting { sent: now }
        } else {
            timer
        },
        ProbeTimer::Awaiting { sent } => if now >= time_after(sent, config.timeout) {
            rested(config, now)
        } else {
            timer
        },
    }
}

/// What the prober is to do when it looks at its timer at `now`.
pub open spec fn step_at_poll(timer: ProbeTimer, config: ProbeConfig, now: u64) -> ProbeStep {
    match timer {
        ProbeTimer::Resting { due } => if now >= due {
            ProbeStep::Send
        } else {
            ProbeStep::Wait { until: due }
        },
        ProbeTimer::Awaiting { sent } => if now >= time_after(sent, config.timeout) {
            ProbeStep::TimedOut
        } else {
            ProbeStep::Wait { until: time_after(sent, config.timeout) }
        },
    }
}

/// The timer after a reply arrived at `now`.
pub open spec fn timer_after_reply(timer: ProbeTimer, config: ProbeConfig, now: u64) -> ProbeTimer {
    match timer {
        ProbeTimer::Resting { .. } => timer,
        ProbeTimer::Awaiting { .. } => rested(config, now),
    }
}

/// The outcome that a reply arriving at `now` stands for: a success with its
/// round-trip time if the probe in flight had not timed out yet, a timeout if
/// it had, and nothing if no probe was in flight.
pub open spec fn outcome_of_reply(timer: ProbeTimer, config: ProbeConfig, now: u64) -> Option<
    ProbeOutcome,
> {
    match timer {
        ProbeTimer::Resting { .. } => None,
        ProbeTimer::Awaiting { sent } => if now >= time_after(sent, config.timeout) {
            Some(ProbeOutcome::Timeout)
        } else {
            Some(ProbeOutcome::Success(time_since(sent, now)))
        },
    }
}

impl ProbeTimer {
    /// The timer of a prober that starts at `now`: the first probe is due one
    /// interval later.
    pub fn start(config: &ProbeConfig, now: u64) -> (timer: ProbeTimer)
        ensures
            timer == rested(*config, now),
    {
        ProbeTimer::Resting { due: add_time(now, config.interval) }
    }

    /// Looks at the timer at `now`. A probe that is due is to be sent, and
    /// the timer then waits for its reply. A probe whose reply is overdue has
    /// timed out, and the timer rests for one interval. Otherwise the prober
    /// is told until when to wait.
    pub fn poll(&mut self, config: &ProbeConfig, now: u64) -> (step: ProbeStep)
        ensures
            *final(self) == timer_after_poll(*old(self), *config, now),
            step == step_at_poll(*old(self), *config, now),
    {
        match *self {
            ProbeTimer::Resting { due } => {
                if now >= due {
                    *self = ProbeTimer::Awaiting { sent: now };
                    ProbeStep::Send
                } else {
                    ProbeStep::Wait { until: due }
                }
            },
            ProbeTimer::Awaiting { sent } => {
                let deadline: u64 = add_time(sent, config.timeout);
                if now >= deadline {
                    *self = ProbeTimer::Resting { due: add_time(now, config.interval) };
                    ProbeStep::TimedOut
                } else {
                    ProbeStep::Wait { until: deadline }
                }
            },
        }
    }

    /// Takes a reply that arrived at `now`. With a probe in flight the timer
    /// rests for one interval, and the probe's outcome is returned: a success
    /// with the round-trip time, or a timeout if the reply came too late.
    /// Without a probe in flight the reply is dropped.
    pub fn reply(&mut self, config: &ProbeConfig, now: u64) -> (outcome: Option<ProbeOutcome>)
        ensures
            *final(self) == timer_after_reply(*old(self), *config, now),
            outcome == outcome_of_reply(*old(self), *config, now),
    {
        match *self {
            ProbeTimer::Resting { .. } => None,
            ProbeTimer::Awaiting { sent } => {
                let deadline: u64 = add_time(sent, config.timeout);
                *self = ProbeTimer::Resting { due: add_time(now, config.interval) };
                if now >= deadline {
                    Some(ProbeOutcome::Timeout)
                } else if now >= sent {
                    Some(ProbeOutcome::Success(now - sent))
                } else {
                    Some(ProbeOutcome::Success(0))
                }
            },
        }
    }
}

/// A record after the timeout rule was applied: a connected peer whose
/// timeouts in a row have reached the threshold is disconnected.
pub open spec fn judged(r: PeerRecordView, threshold: u64) -> PeerRecordView {
    if r.connection_state == ConnectionState::Connected && r.consecutive_timeouts >= threshold {
        with_state(r, ConnectionState::Disconnected)
    } else {
        r
    }
}

/// The registry after the timeout rule was applied to the peer `id`.
pub open spec fn after_judgement(
    s: Seq<PeerRecordView>,
    id: Seq<char>,
    threshold: u64,
) -> Seq<PeerRecordView> {
    update_peer(s, id, |r: PeerRecordView| judged(r, threshold))
}

/// The registry after the prober reported `outcome` for the peer `id`: the
/// outcome is recorded, and after a timeout the timeout rule is applied.
pub open spec fn after_probe_result(
    s: Seq<PeerRecordView>,
    id: Seq<char>,
    outcome: ProbeOutcome,
    threshold: u64,
) -> Seq<PeerRecordView> {
    match outcome {
        ProbeOutcome::Timeout => after_judgement(after_probe(s, id, outcome), id, threshold),
        _ => after_probe(s, id, outcome),
    }
}

/// Applying a probe result keeps the identifiers unique and the same peers known.
pub proof fn lemma_after_probe_result(
    s: Seq<PeerRecordView>,
    id: Seq<char>,
    outcome: ProbeOutcome,
    threshold: u64,
)
    requires
        unique_ids(s),
    ensures
        unique_ids(after_probe_result(s, id, outcome, threshold)),
        after_probe_result(s, id, outcome, threshold).len() == s.len(),
{
    lemma_update_peer(s, id, |r: PeerRecordView| probed(r, outcome));
    lemma_update_peer(after_probe(s, id, outcome), id, |r: PeerRecordView| judged(r, threshold));
}

/// Applies the timeout rule to the peer `id`.
fn judge(registry: &mut Registry, id: &String, threshold: u64)
    requires
        old(registry).wf(),
    ensures
        final(registry).wf(),
        final(registry)@ == after_judgement(old(registry)@, id@, threshold),
{
    let ghost change = |r: PeerRecordView| judged(r, threshold);
    proof {
        lemma_update_peer(registry@, id@, change);
    }
    match registry.find(id) {
        Some(i) => {
            proof {
                lemma_update_peer_at(registry@, i as int, change);
            }
            if registry.state_at(i) == ConnectionState::Connected && registry.timeouts_at(i)
                >= threshold {
                registry.set_state_at(i, ConnectionState::Disconnected);
            } else {
                assert(registry@ =~= registry@.update(i as int, registry@[i as int]));
            }
        },
        None => {},
    }
}

/// Applies a probe result to the registry: the outcome is recorded, and a
/// connected peer whose timeouts in a row have reached the threshold of
/// `config` is declared disconnected. Returns whether the peer is known; a
/// result for a peer without a record changes nothing.
pub fn apply_probe(registry: &mut Registry, config: &ProbeConfig, result: &ProbeResult) -> (known: bool)
    requires
        old(registry).wf(),
    ensures
        final(registry).wf(),
        final(registry)@ == after_probe_result(
            old(registry)@,
            result.peer@,
            result.outcome,
            config.threshold,
        ),
        known == knows(old(registry)@, result.peer@),
{
    let known = registry.record_probe(result);
    match result.outcome {
        ProbeOutcome::Timeout => {
            judge(registry, &result.peer, config.threshold);
        },
        _ => {},
    }
    known
}

} // verus!
