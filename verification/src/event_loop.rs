//! The event loop's step: the one place where the registry is changed.
//! Discovery events, probe results and dial completions are applied one at a
//! time, and each step says what the surroundings are to do next.

use vstd::prelude::*;
use crate::dialer::{
    DialError, DialOutcome, DialRequest, DialRequestView, after_cancel, after_dial_outcome,
    cancel_dials, dial_completed, reported_failure,
};
use crate::discovery::{
    AnnouncementView, DiscoveryEvent, after_announcements, announcement_requests, observe_all,
    request_views,
};
use crate::peer::{PeerRecordView, ProbeResult, ProbeResultView};
use crate::prober::{ProbeConfig, after_probe_result, apply_probe};
use crate::registry::{Registry, unique_ids};

verus! {

/// One thing that happened outside and that the loop is told of.
#[derive(Debug)]
pub enum Event {
    /// The discovery mechanism announced peers.
    Discovered(DiscoveryEvent),
    /// A probe of a peer ended.
    Probed(ProbeResult),
    /// An attempt to connect to a peer ended.
    DialFinished { peer: String, outcome: DialOutcome },
    /// One of the event sources failed. The loop goes on.
    SourceFailed,
    /// The process is shutting down.
    Shutdown,
}

/// The mathematical value of an [`Event`].
pub ghost enum EventView {
    Discovered(Seq<AnnouncementView>),
    Probed(ProbeResultView),
    DialFinished { peer: Seq<char>, outcome: DialOutcome },
    SourceFailed,
    Shutdown,
}

impl View for Event {
    type V = EventView;

    open spec fn view(&self) -> EventView {
        match *self {
            Event::Discovered(event) => EventView::Discovered(event@),
            Event::Probed(result) => EventView::Probed(result@),
            Event::DialFinished { peer, outcome } => EventView::DialFinished {
                peer: peer@,
                outcome,
            },
            Event::SourceFailed => EventView::SourceFailed,
            Event::Shutdown => EventView::Shutdown,
        }
    }
}

/// A connection attempt that failed, to be reported.
#[derive(Clone, Debug)]
pub struct DialFailure {
    pub peer: String,
    pub error: DialError,
}

/// The mathematical value of a [`DialFailure`].
pub ghost struct DialFailureView {
    pub peer: Seq<char>,
    pub error: DialError,
}

impl View for DialFailure {
    type V = DialFailureView;

    open spec fn view(&self) -> DialFailureView {
        DialFailureView { peer: self.peer@, error: self.error }
    }
}

/// What the surroundings are to do after one step of the loop.
#[derive(Debug)]
pub struct Actions {
    /// The connections to ask the transport for, in order.
    pub dials: Vec<DialRequest>,
    /// The failed connection attempt to report, if the step recorded one.
    pub failure: Option<DialFailure>,
}

/// The mathematical value of [`Actions`].
pub ghost struct ActionsView {
    pub dials: Seq<DialRequestView>,
    pub failure: Option<DialFailureView>,
}

impl View for Actions {
    type V = ActionsView;

    open spec fn view(&self) -> ActionsView {
        ActionsView {
            dials: request_views(self.dials@),
            failure: match self.failure {
                Some(f) => Some(f@),
                None => None,
            },
        }
    }
}

impl Actions {
    /// Nothing to do.
    pub fn none() -> (actions: Actions)
        ensures
            actions@ == no_actions(),
    {
        let actions = Actions { dials: Vec::new(), failure: None };
        assert(actions@.dials =~= Seq::<DialRequestView>::empty());
        actions
    }
}

/// The mathematical value of an [`EventLoop`].
pub ghost struct LoopState {
    /// The identifier of the local node.
    pub local: Seq<char>,
    /// The prober's settings.
    pub config: ProbeConfig,
    /// The registry's records.
    pub records: Seq<PeerRecordView>,
    /// Whether the loop still takes events.
    pub running: bool,
}

/// The state in which a loop for the node `local` starts.
pub open spec fn initial_state(local: Seq<char>, config: ProbeConfig) -> LoopState {
    LoopState { local, config, records: Seq::empty(), running: true }
}

/// No actions at all.
pub open spec fn no_actions() -> ActionsView {
    ActionsView { dials: Seq::empty(), failure: None }
}

/// The state after one event, handled at time `now`. A loop that was shut
/// down takes no more events.
pub open spec fn state_after(st: LoopState, event: EventView, now: u64) -> LoopState {
    if !st.running {
        st
    } else {
        match event {
            EventView::Discovered(batch) => LoopState {
                records: after_announcements(st.records, st.local, batch, now),
                ..st
            },
            EventView::Probed(result) => LoopState {
                records: after_probe_result(
                    st.records,
                    result.peer,
                    result.outcome,
                    st.config.threshold,
                ),
                ..st
            },
            EventView::DialFinished { peer, outcome } => LoopState {
                records: after_dial_outcome(st.records, peer, outcome),
                ..st
            },
            EventView::SourceFailed => st,
            EventView::Shutdown => LoopState {
                records: after_cancel(st.records),
                running: false,
                ..st
            },
        }
    }
}

/// What one event, handled at time `now`, asks the surroundings to do.
pub open spec fn actions_after(st: LoopState, event: EventView, now: u64) -> ActionsView {
    if !st.running {
        no_actions()
    } else {
        match event {
            EventView::Discovered(batch) => ActionsView {
                dials: announcement_requests(st.records, st.local, batch, now),
                failure: None,
            },
            EventView::DialFinished { peer, outcome } => ActionsView {
                dials: Seq::empty(),
                failure: match reported_failure(st.records, peer, outcome) {
                    Some(error) => Some(DialFailureView { peer, error }),
                    None => None,
                },
            },
            _ => no_actions(),
        }
    }
}

/// An event together with the time at which the loop handles it.
pub ghost struct TimedEvent {
    pub event: EventView,
    pub at: u64,
}

/// The state after a sequence of events was handled in order.
pub open spec fn state_after_all(st: LoopState, events: Seq<TimedEvent>) -> LoopState
    decreases events.len(),
{
    if events.len() == 0 {
        st
    } else {
        state_after(state_after_all(st, events.drop_last()), events.last().event, events.last().at)
    }
}

/// The single writer of the registry.
pub struct EventLoop {
    local_id: String,
    config: ProbeConfig,
    registry: Registry,
    running: bool,
}

impl View for EventLoop {
    type V = LoopState;

    closed spec fn view(&self) -> LoopState {
        LoopState {
            local: self.local_id@,
            config: self.config,
            records: self.registry@,
            running: self.running,
        }
    }
}

impl EventLoop {
    /// The loop's invariant: its registry holds no peer twice.
    pub open spec fn wf(&self) -> bool {
        unique_ids(self@.records)
    }

    /// A loop for the node `local_id`, with an empty registry.
    pub fn new(local_id: String, config: ProbeConfig) -> (event_loop: EventLoop)
        ensures
            event_loop.wf(),
            event_loop@ == initial_state(local_id@, config),
    {
        EventLoop { local_id, config, registry: Registry::new(), running: true }
    }

    /// The identifier of the local node.
    pub fn local_id(&self) -> (id: &String)
        ensures
            id@ == self@.local,
    {
        &self.local_id
    }

    /// The prober's settings.
    pub fn config(&self) -> (config: ProbeConfig)
        ensures
            config == self@.config,
    {
        self.config
    }

    /// The registry, for reading.
    pub fn registry(&self) -> (registry: &Registry)
        ensures
            registry@ == self@.records,
            self.wf() ==> registry.wf(),
    {
        &self.registry
    }

    /// Whether the loop still takes events.
    pub fn is_running(&self) -> (running: bool)
        ensures
            running == self@.running,
    {
        self.running
    }

    /// Applies one event at time `now` and returns what is to be done next.
    /// Announced peers are recorded and dialed where needed; a probe result
    /// or a finished dial changes the peer's record, and a failed dial is
    /// handed back to be reported; a failed event source changes nothing;
    /// shutdown cancels the dials in flight and stops the loop, which then
    /// ignores every later event.
    pub fn step(&mut self, event: Event, now: u64) -> (actions: Actions)
        requires
            old(self).wf(),
        ensures
            final(self).wf(),
            final(self)@ == state_after(old(self)@, event@, now),
            actions@ == actions_after(old(self)@, event@, now),
    {
        if !self.running {
            return Actions::none();
        }
        match event {
            Event::Discovered(discovery) => {
                let dials = observe_all(&mut self.registry, &self.local_id, &discovery, now);
                Actions { dials, failure: None }
            },
            Event::Probed(result) => {
                apply_probe(&mut self.registry, &self.config, &result);
                Actions::none()
            },
            Event::DialFinished { peer, outcome } => {
                let failed = dial_completed(&mut self.registry, &peer, outcome);
                let failure = match failed {
                    Some(error) => Some(DialFailure { peer, error }),
                    None => None,
                };
                let mut report = Actions::none();
                report.failure = failure;
                report
            },
            Event::SourceFailed => {
                Actions::none()
            },
            Event::Shutdown => {
                cancel_dials(&mut self.registry);
                self.running = false;
                Actions::none()
            },
        }
    }
}

} // verus!
