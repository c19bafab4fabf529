//! What holds of the membership core as a whole, proved from the rules of
//! its parts.

use vstd::prelude::*;
use crate::dialer::{
    DialRequestView, after_dial, dial_finished, dial_goes_ahead, dial_request, lemma_after_cancel,
};
use crate::discovery::{
    AnnouncementView, after_announcement, after_announcements, announcement_request,
    announcement_requests, lemma_after_announcements, lemma_announcement_effect,
    lemma_rediscovered, open_to_dial, rediscovered,
};
use crate::event_loop::{
    EventView, LoopState, TimedEvent, actions_after, initial_state, state_after, state_after_all,
};
use crate::peer::{ConnectionState, PeerRecordView, ProbeOutcome, may_follow};
use crate::prober::{
    ProbeConfig, ProbeStep, ProbeTimer, after_probe_result, judged, lemma_after_probe_result,
    rested, step_at_poll, timer_after_poll,
};
use crate::registry::{
    after_probe, lemma_update_peer, lookup, probed, state_of, unique_ids, with_state,
};

verus! {

/// One step of the loop never gives a peer a second record.
pub proof fn step_keeps_peers_unique(st: LoopState, event: EventView, now: u64)
    requires
        unique_ids(st.records),
    ensures
        unique_ids(state_after(st, event, now).records),
{
    if st.running {
        match event {
            EventView::Discovered(batch) => {
                lemma_after_announcements(st.records, st.local, batch, now);
            },
            EventView::Probed(result) => {
                lemma_after_probe_result(
                    st.records,
                    result.peer,
                    result.outcome,
                    st.config.threshold,
                );
            },
            EventView::DialFinished { peer, outcome } => {
                lemma_update_peer(st.records, peer, |r: PeerRecordView| dial_finished(r, outcome));
            },
            EventView::SourceFailed => {},
            EventView::Shutdown => {
                lemma_after_cancel(st.records);
            },
        }
    }
}

/// Whatever events arrive, in whatever order and at whatever times, the
/// registry of a loop that started empty never holds two records for the
/// same peer.
pub proof fn registry_never_holds_a_peer_twice(
    local: Seq<char>,
    config: ProbeConfig,
    events: Seq<TimedEvent>,
)
    ensures
        unique_ids(state_after_all(initial_state(local, config), events).records),
    decreases events.len(),
{
    if events.len() > 0 {
        registry_never_holds_a_peer_twice(local, config, events.drop_last());
        step_keeps_peers_unique(
            state_after_all(initial_state(local, config), events.drop_last()),
            events.last().event,
            events.last().at,
        );
    }
}

/// A batch of announcements never leads to a dial of the local node, and
/// never dials one peer twice. Every peer that it dials was neither being
/// dialed nor connected before, and is being dialed afterwards.
pub proof fn batch_dials_each_peer_at_most_once(
    s: Seq<PeerRecordView>,
    local: Seq<char>,
    batch: Seq<AnnouncementView>,
    now: u64,
)
    requires
        unique_ids(s),
    ensures
        unique_ids(after_announcements(s, local, batch, now)),
        forall|i: int|
            0 <= i < announcement_requests(s, local, batch, now).len() ==> {
                let r = #[trigger] announcement_requests(s, local, batch, now)[i];
                &&& r.peer != local
                &&& open_to_dial(s, r.peer)
                &&& state_of(after_announcements(s, local, batch, now), r.peer) == Some(
                    ConnectionState::Dialing,
                )
            },
        forall|i: int, j: int|
            0 <= i < j < announcement_requests(s, local, batch, now).len()
                ==> announcement_requests(s, local, batch, now)[i].peer != announcement_requests(
                s,
                local,
                batch,
                now,
            )[j].peer,
        forall|id: Seq<char>|
            !open_to_dial(s, id) ==> #[trigger] state_of(
                after_announcements(s, local, batch, now),
                id,
            ) == state_of(s, id),
    decreases batch.len(),
{
    if batch.len() > 0 {
        let earlier = batch.drop_last();
        let a = batch.last();
        let t = after_announcements(s, local, earlier, now);
        let before = announcement_requests(s, local, earlier, now);
        let after = announcement_requests(s, local, batch, now);
        let u = after_announcements(s, local, batch, now);
        batch_dials_each_peer_at_most_once(s, local, earlier, now);
        lemma_announcement_effect(t, local, a, now);
        assert forall|id: Seq<char>| !open_to_dial(s, id) implies #[trigger] state_of(u, id)
            == state_of(s, id) by {
            assert(state_of(t, id) == state_of(s, id));
        }
        assert forall|i: int| 0 <= i < after.len() implies {
            let r = #[trigger] after[i];
            &&& r.peer != local
            &&& open_to_dial(s, r.peer)
            &&& state_of(u, r.peer) == Some(ConnectionState::Dialing)
        } by {
            if i < before.len() {
                assert(after[i] == before[i]);
                let r = before[i];
                assert(state_of(t, r.peer) == Some(ConnectionState::Dialing));
            } else {
                if !open_to_dial(s, a.peer) {
                    assert(state_of(t, a.peer) == state_of(s, a.peer));
                }
            }
        }
        assert forall|i: int, j: int| 0 <= i < j < after.len() implies after[i].peer
            != after[j].peer by {
            if j < before.len() {
                assert(after[i] == before[i]);
                assert(after[j] == before[j]);
            } else {
                assert(after[i] == before[i]);
                let r = before[i];
                assert(state_of(t, r.peer) == Some(ConnectionState::Dialing));
            }
        }
    }
}

/// No step of the loop asks for a dial of the local node, whatever the event
/// says: an announcement that names the node itself is dropped.
pub proof fn local_node_is_never_dialed(st: LoopState, event: EventView, now: u64)
    requires
        unique_ids(st.records),
    ensures
        forall|i: int|
            0 <= i < actions_after(st, event, now).dials.len() ==> (#[trigger] actions_after(
                st,
                event,
                now,
            ).dials[i]).peer != st.local,
{
    if st.running {
        match event {
            EventView::Discovered(batch) => {
                batch_dials_each_peer_at_most_once(st.records, st.local, batch, now);
            },
            _ => {},
        }
    }
}

/// Of two dials of the same peer with no completion in between, the second
/// is dropped: it asks the transport for nothing and changes nothing. The
/// first asks for a connection exactly if the peer is known and neither
/// being dialed nor connected, so the two together ask for at most one.
pub proof fn second_dial_is_dropped(
    s: Seq<PeerRecordView>,
    id: Seq<char>,
    first: Seq<char>,
    second: Seq<char>,
)
    requires
        unique_ids(s),
    ensures
        dial_request(after_dial(s, id), id, second) is None,
        after_dial(after_dial(s, id), id) == after_dial(s, id),
        dial_request(s, id, first) is Some <==> dial_goes_ahead(s, id),
        dial_goes_ahead(s, id) ==> dial_request(s, id, first) == Some(
            DialRequestView { peer: id, address: first },
        ) && state_of(after_dial(s, id), id) == Some(ConnectionState::Dialing),
{
    lemma_update_peer(s, id, |r: PeerRecordView| with_state(r, ConnectionState::Dialing));
}

/// A connected peer that falls silent is declared disconnected at a time
/// that is fixed in advance. After its last reply at time `last_reply` the
/// prober waits one interval, sends a probe, waits for the length of the
/// timeout and no longer, and reports the timeout; with that timeout the
/// peer's count reaches the threshold, and the peer is disconnected.
pub proof fn silent_peer_is_disconnected_in_time(
    s: Seq<PeerRecordView>,
    id: Seq<char>,
    config: ProbeConfig,
    last_reply: u64,
)
    requires
        unique_ids(s),
        lookup(s, id) is Some,
        lookup(s, id).unwrap().connection_state == ConnectionState::Connected,
        config.threshold <= lookup(s, id).unwrap().consecutive_timeouts + 1,
        last_reply + config.interval + config.timeout <= u64::MAX,
    ensures
        forall|now: u64|
            now < last_reply + config.interval ==> {
                &&& #[trigger] step_at_poll(rested(config, last_reply), config, now)
                    == (ProbeStep::Wait { until: (last_reply + config.interval) as u64 })
                &&& timer_after_poll(rested(config, last_reply), config, now) == rested(
                    config,
                    last_reply,
                )
            },
        step_at_poll(rested(config, last_reply), config, (last_reply + config.interval) as u64)
            == ProbeStep::Send,
        timer_after_poll(rested(config, last_reply), config, (last_reply + config.interval) as u64)
            == (ProbeTimer::Awaiting { sent: (last_reply + config.interval) as u64 }),
        forall|now: u64|
            now < last_reply + config.interval + config.timeout ==> {
                &&& #[trigger] step_at_poll(
                    ProbeTimer::Awaiting { sent: (last_reply + config.interval) as u64 },
                    config,
                    now,
                ) == (ProbeStep::Wait {
                    until: (last_reply + config.interval + config.timeout) as u64,
                })
                &&& timer_after_poll(
                    ProbeTimer::Awaiting { sent: (last_reply + config.interval) as u64 },
                    config,
                    now,
                ) == (ProbeTimer::Awaiting { sent: (last_reply + config.interval) as u64 })
            },
        step_at_poll(
            ProbeTimer::Awaiting { sent: (last_reply + config.interval) as u64 },
            config,
            (last_reply + config.interval + config.timeout) as u64,
        ) == ProbeStep::TimedOut,
        state_of(after_probe_result(s, id, ProbeOutcome::Timeout, config.threshold), id) == Some(
            ConnectionState::Disconnected,
        ),
{
    lemma_update_peer(s, id, |r: PeerRecordView| probed(r, ProbeOutcome::Timeout));
    lemma_update_peer(
        after_probe(s, id, ProbeOutcome::Timeout),
        id,
        |r: PeerRecordView| judged(r, config.threshold),
    );
}

/// A disconnected peer that is announced again starts over and is dialed
/// once: its record goes back to where a new peer starts, the announcement
/// asks for one dial, at the announced address, and the peer is then being
/// dialed.
pub proof fn rediscovery_heals(
    s: Seq<PeerRecordView>,
    local: Seq<char>,
    a: AnnouncementView,
    now: u64,
)
    requires
        unique_ids(s),
        a.peer != local,
        state_of(s, a.peer) == Some(ConnectionState::Disconnected),
    ensures
        state_of(rediscovered(s, a.peer, a.address, now), a.peer) == Some(
            ConnectionState::Unknown,
        ),
        announcement_request(s, local, a, now) == Some(
            DialRequestView { peer: a.peer, address: a.address },
        ),
        announcement_requests(s, local, seq![a], now) == seq![
            DialRequestView { peer: a.peer, address: a.address },
        ],
        state_of(after_announcement(s, local, a, now), a.peer) == Some(ConnectionState::Dialing),
        after_announcements(s, local, seq![a], now) == after_announcement(s, local, a, now),
{
    lemma_rediscovered(s, a.peer, a.address, now);
    lemma_announcement_effect(s, local, a, now);
    let batch = seq![a];
    assert(batch.drop_last() =~= Seq::<AnnouncementView>::empty());
    assert(batch.last() == a);
    assert(after_announcements(s, local, batch.drop_last(), now) == s);
    assert(announcement_requests(s, local, batch.drop_last(), now) =~= Seq::<
        DialRequestView,
    >::empty());
    assert(announcement_requests(s, local, batch, now) =~= seq![
        DialRequestView { peer: a.peer, address: a.address },
    ]);
}

/// Some announcement of `batch` names the peer `id`.
pub open spec fn announces(batch: Seq<AnnouncementView>, id: Seq<char>) -> bool {
    exists|k: int| 0 <= k < batch.len() && (#[trigger] batch[k]).peer == id
}

/// Some request of `requests` asks for a connection to the peer `id`.
pub open spec fn asks_for(requests: Seq<DialRequestView>, id: Seq<char>) -> bool {
    exists|i: int| 0 <= i < requests.len() && (#[trigger] requests[i]).peer == id
}

/// Which peers a batch of announcements dials, and where it leaves each
/// peer: a peer is dialed exactly if it is announced, is not the local node,
/// and was neither being dialed nor connected; such a peer is being dialed
/// afterwards, and every other peer is in the state it was in.
pub proof fn batch_dials_exactly_the_open_peers(
    s: Seq<PeerRecordView>,
    local: Seq<char>,
    batch: Seq<AnnouncementView>,
    now: u64,
)
    requires
        unique_ids(s),
    ensures
        forall|id: Seq<char>| #[trigger]
            asks_for(announcement_requests(s, local, batch, now), id) <==> id != local
                && announces(batch, id) && open_to_dial(s, id),
        forall|id: Seq<char>| #[trigger]
            state_of(after_announcements(s, local, batch, now), id) == if id != local
                && announces(batch, id) && open_to_dial(s, id) {
                Some(ConnectionState::Dialing)
            } else {
                state_of(s, id)
            },
    decreases batch.len(),
{
    let requests = announcement_requests(s, local, batch, now);
    let after = after_announcements(s, local, batch, now);
    if batch.len() == 0 {
        assert forall|id: Seq<char>| !#[trigger] asks_for(requests, id) by {}
        assert forall|id: Seq<char>| !#[trigger] announces(batch, id) by {}
    } else {
        let earlier = batch.drop_last();
        let a = batch.last();
        let t = after_announcements(s, local, earlier, now);
        let before = announcement_requests(s, local, earlier, now);
        batch_dials_exactly_the_open_peers(s, local, earlier, now);
        lemma_after_announcements(s, local, earlier, now);
        lemma_announcement_effect(t, local, a, now);
        let pushed = a.peer != local && open_to_dial(t, a.peer);
        assert forall|id: Seq<char>| announces(batch, id) <==> (announces(earlier, id) || a.peer
            == id) by {
            if announces(earlier, id) {
                let k = choose|k: int| 0 <= k < earlier.len() && (#[trigger] earlier[k]).peer == id;
                assert(batch[k].peer == id);
            }
            if a.peer == id {
                assert(batch[batch.len() - 1].peer == id);
            }
            if announces(batch, id) {
                let k = choose|k: int| 0 <= k < batch.len() && (#[trigger] batch[k]).peer == id;
                if k < earlier.len() {
                    assert(earlier[k].peer == id);
                }
            }
        }
        assert forall|id: Seq<char>| asks_for(requests, id) <==> (asks_for(before, id) || (pushed
            && a.peer == id)) by {
            if asks_for(before, id) {
                let i = choose|i: int| 0 <= i < before.len() && (#[trigger] before[i]).peer == id;
                assert(requests[i].peer == id);
            }
            if pushed && a.peer == id {
                assert(requests[requests.len() - 1].peer == id);
            }
            if asks_for(requests, id) {
                let i = choose|i: int|
                    0 <= i < requests.len() && (#[trigger] requests[i]).peer == id;
                if i < before.len() {
                    assert(before[i].peer == id);
                }
            }
        }
        assert forall|id: Seq<char>| #[trigger]
            asks_for(requests, id) <==> id != local && announces(batch, id) && open_to_dial(
                s,
                id,
            ) by {
            assert(asks_for(before, id) <==> id != local && announces(earlier, id)
                && open_to_dial(s, id));
            assert(state_of(t, a.peer) == if a.peer != local && announces(earlier, a.peer)
                && open_to_dial(s, a.peer) {
                Some(ConnectionState::Dialing)
            } else {
                state_of(s, a.peer)
            });
        }
        assert forall|id: Seq<char>| #[trigger]
            state_of(after, id) == if id != local && announces(batch, id) && open_to_dial(s, id) {
                Some(ConnectionState::Dialing)
            } else {
                state_of(s, id)
            } by {
            assert(state_of(t, id) == if id != local && announces(earlier, id) && open_to_dial(
                s,
                id,
            ) {
                Some(ConnectionState::Dialing)
            } else {
                state_of(s, id)
            });
            if id != a.peer {
                assert(lookup(after, id) == lookup(t, id));
            }
        }
    }
}

/// Whether the registry may hold `to` for a peer one step after it held
/// `from`: a record is never dropped, a known peer's state moves only as
/// [`may_follow`] allows, and a peer that was not known enters the registry
/// as being dialed.
pub open spec fn step_allowed(from: Option<ConnectionState>, to: Option<ConnectionState>) -> bool {
    match (from, to) {
        (Some(a), Some(b)) => may_follow(a, b),
        (Some(_), None) => false,
        (None, Some(b)) => b == ConnectionState::Dialing,
        (None, None) => true,
    }
}

/// Every step of the loop moves every peer along the connection state
/// machine, and drops no record.
pub proof fn step_follows_the_state_machine(
    st: LoopState,
    event: EventView,
    now: u64,
    id: Seq<char>,
)
    requires
        unique_ids(st.records),
    ensures
        step_allowed(state_of(st.records, id), state_of(state_after(st, event, now).records, id)),
{
    if st.running {
        match event {
            EventView::Discovered(batch) => {
                batch_dials_exactly_the_open_peers(st.records, st.local, batch, now);
            },
            EventView::Probed(result) => {
                lemma_update_peer(
                    st.records,
                    result.peer,
                    |r: PeerRecordView| probed(r, result.outcome),
                );
                lemma_update_peer(
                    after_probe(st.records, result.peer, result.outcome),
                    result.peer,
                    |r: PeerRecordView| judged(r, st.config.threshold),
                );
            },
            EventView::DialFinished { peer, outcome } => {
                lemma_update_peer(st.records, peer, |r: PeerRecordView| dial_finished(r, outcome));
            },
            EventView::SourceFailed => {},
            EventView::Shutdown => {
                lemma_after_cancel(st.records);
            },
        }
    }
}

/// Shutdown leaves no peer being dialed, and nothing that arrives later
/// changes the loop's state again.
pub proof fn shutdown_is_final(st: LoopState, now: u64, later: Seq<TimedEvent>)
    requires
        st.running,
        unique_ids(st.records),
    ensures
        !state_after(st, EventView::Shutdown, now).running,
        forall|id: Seq<char>| #[trigger]
            state_of(state_after(st, EventView::Shutdown, now).records, id) != Some(
                ConnectionState::Dialing,
            ),
        state_after_all(state_after(st, EventView::Shutdown, now), later) == state_after(
            st,
            EventView::Shutdown,
            now,
        ),
    decreases later.len(),
{
    lemma_after_cancel(st.records);
    if later.len() > 0 {
        shutdown_is_final(st, now, later.drop_last());
    }
}

} // verus!
