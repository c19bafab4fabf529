//! The peer registry: one record per known peer, in the order in which the
//! peers were first announced.

use vstd::prelude::*;
use crate::peer::{
    ConnectionState, PeerRecord, PeerRecordView, ProbeOutcome, ProbeResult, fresh_record,
    optional_view, record_views,
};

verus! {

/// No two records of `s` carry the same peer identifier.
pub open spec fn unique_ids(s: Seq<PeerRecordView>) -> bool {
    forall|i: int, j: int| 0 <= i < j < s.len() ==> s[i].id != s[j].id
}

/// Some record of `s` belongs to the peer `id`.
pub open spec fn knows(s: Seq<PeerRecordView>, id: Seq<char>) -> bool {
    exists|i: int| 0 <= i < s.len() && (#[trigger] s[i]).id == id
}

/// The record that `s` holds for the peer `id`, if it holds one.
pub open spec fn lookup(s: Seq<PeerRecordView>, id: Seq<char>) -> Option<PeerRecordView> {
    if knows(s, id) {
        Some(s[choose|i: int| 0 <= i < s.len() && (#[trigger] s[i]).id == id])
    } else {
        None
    }
}

/// The connection state that `s` records for the peer `id`, if it knows the peer.
pub open spec fn state_of(s: Seq<PeerRecordView>, id: Seq<char>) -> Option<ConnectionState> {
    match lookup(s, id) {
        Some(r) => Some(r.connection_state),
        None => None,
    }
}

/// `s` with `change` applied to the record of the peer `id`, and every other
/// record as it was.
pub open spec fn update_peer(
    s: Seq<PeerRecordView>,
    id: Seq<char>,
    change: spec_fn(PeerRecordView) -> PeerRecordView,
) -> Seq<PeerRecordView> {
    Seq::new(s.len(), |i: int| if s[i].id == id { change(s[i]) } else { s[i] })
}

/// A record after a repeated announcement: the address and the time of the
/// announcement are taken over, connection state and liveness counters stay.
pub open spec fn refreshed(r: PeerRecordView, address: Seq<char>, now: u64) -> PeerRecordView {
    PeerRecordView { address, last_seen: now, ..r }
}

/// A record with its connection state replaced.
pub open spec fn with_state(r: PeerRecordView, state: ConnectionState) -> PeerRecordView {
    PeerRecordView { connection_state: state, ..r }
}

/// The connection state after a sign of life: a peer that was being dialed, or
/// had not been dialed at all, now counts as connected.
pub open spec fn state_after_contact(state: ConnectionState) -> ConnectionState {
    match state {
        ConnectionState::Unknown | ConnectionState::Dialing => ConnectionState::Connected,
        ConnectionState::Connected => ConnectionState::Connected,
        ConnectionState::Disconnected => ConnectionState::Disconnected,
    }
}

/// One more timeout on the counter, which stops at the largest value it can hold.
pub open spec fn one_more_timeout(count: u64) -> u64 {
    if count < u64::MAX {
        (count + 1) as u64
    } else {
        count
    }
}

/// A record after one probe outcome.
pub open spec fn probed(r: PeerRecordView, outcome: ProbeOutcome) -> PeerRecordView {
    match outcome {
        ProbeOutcome::Success(rtt) => PeerRecordView {
            connection_state: state_after_contact(r.connection_state),
            last_rtt: Some(rtt),
            consecutive_timeouts: 0,
            ..r
        },
        ProbeOutcome::Timeout => PeerRecordView {
            consecutive_timeouts: one_more_timeout(r.consecutive_timeouts),
            ..r
        },
        ProbeOutcome::Unreachable => with_state(r, ConnectionState::Disconnected),
    }
}

/// The registry after an announcement of the peer `id` at `address`: a known
/// peer's record is refreshed, an unknown peer gets a fresh record at the end.
pub open spec fn upserted(
    s: Seq<PeerRecordView>,
    id: Seq<char>,
    address: Seq<char>,
    now: u64,
) -> Seq<PeerRecordView> {
    if knows(s, id) {
        update_peer(s, id, |r: PeerRecordView| refreshed(r, address, now))
    } else {
        s.push(fresh_record(id, address, now))
    }
}

/// The registry after a probe of the peer `id` ended in `outcome`.
pub open spec fn after_probe(
    s: Seq<PeerRecordView>,
    id: Seq<char>,
    outcome: ProbeOutcome,
) -> Seq<PeerRecordView> {
    update_peer(s, id, |r: PeerRecordView| probed(r, outcome))
}

/// The registry after the connection state of the peer `id` was set to `state`.
pub open spec fn after_state_change(
    s: Seq<PeerRecordView>,
    id: Seq<char>,
    state: ConnectionState,
) -> Seq<PeerRecordView> {
    update_peer(s, id, |r: PeerRecordView| with_state(r, state))
}

/// With unique identifiers, the record found at any position is the one that
/// `lookup` names.
pub proof fn lemma_lookup_at(s: Seq<PeerRecordView>, i: int)
    requires
        unique_ids(s),
        0 <= i < s.len(),
    ensures
        knows(s, s[i].id),
        lookup(s, s[i].id) == Some(s[i]),
{
    let id = s[i].id;
    assert(knows(s, id));
    let j = choose|j: int| 0 <= j < s.len() && (#[trigger] s[j]).id == id;
    if j < i {
        assert(s[j].id != s[i].id);
    } else if i < j {
        assert(s[i].id != s[j].id);
    }
}

/// A change that keeps each record's identifier keeps the identifiers unique,
/// touches only the record of the named peer, and leaves unknown peers unknown.
pub proof fn lemma_update_peer(
    s: Seq<PeerRecordView>,
    id: Seq<char>,
    change: spec_fn(PeerRecordView) -> PeerRecordView,
)
    requires
        unique_ids(s),
        forall|r: PeerRecordView| (#[trigger] change(r)).id == r.id,
    ensures
        unique_ids(update_peer(s, id, change)),
        update_peer(s, id, change).len() == s.len(),
        forall|other: Seq<char>| knows(update_peer(s, id, change), other) == knows(s, other),
        forall|other: Seq<char>| other != id ==> lookup(update_peer(s, id, change), other) == lookup(s, other),
        lookup(update_peer(s, id, change), id) == match lookup(s, id) {
            Some(r) => Some(change(r)),
            None => None,
        },
        !knows(s, id) ==> update_peer(s, id, change) == s,
{
    let t = update_peer(s, id, change);
    assert forall|i: int| 0 <= i < s.len() implies (#[trigger] t[i]).id == s[i].id by {}
    assert forall|other: Seq<char>| knows(t, other) == knows(s, other) by {
        if knows(s, other) {
            let i = choose|i: int| 0 <= i < s.len() && (#[trigger] s[i]).id == other;
            assert(t[i].id == other);
        }
        if knows(t, other) {
            let i = choose|i: int| 0 <= i < t.len() && (#[trigger] t[i]).id == other;
            assert(s[i].id == other);
        }
    }
    assert forall|other: Seq<char>| lookup(t, other) == (if other == id {
        match lookup(s, id) {
            Some(r) => Some(change(r)),
            None => None,
        }
    } else {
        lookup(s, other)
    }) by {
        if knows(s, other) {
            let i = choose|i: int| 0 <= i < s.len() && (#[trigger] s[i]).id == other;
            lemma_lookup_at(s, i);
            assert(t[i].id == other);
            lemma_lookup_at(t, i);
        }
    }
    if !knows(s, id) {
        assert forall|i: int| 0 <= i < s.len() implies t[i] == s[i] by {
            if s[i].id == id {
                assert(knows(s, id));
            }
        }
        assert(t =~= s);
    }
}

/// With unique identifiers, a change to the peer whose record stands at
/// position `i` changes that record and no other.
pub proof fn lemma_update_peer_at(
    s: Seq<PeerRecordView>,
    i: int,
    change: spec_fn(PeerRecordView) -> PeerRecordView,
)
    requires
        unique_ids(s),
        0 <= i < s.len(),
    ensures
        update_peer(s, s[i].id, change) == s.update(i, change(s[i])),
{
    let t = update_peer(s, s[i].id, change);
    assert forall|j: int| 0 <= j < s.len() implies t[j] == s.update(i, change(s[i]))[j] by {
        if j < i {
            assert(s[j].id != s[i].id);
        } else if i < j {
            assert(s[i].id != s[j].id);
        }
    }
    assert(t =~= s.update(i, change(s[i])));
}

/// What an announcement does to the registry, seen through `lookup`: the
/// announced peer is known afterwards, with the new address, and no other peer
/// is touched.
pub proof fn lemma_upserted(s: Seq<PeerRecordView>, id: Seq<char>, address: Seq<char>, now: u64)
    requires
        unique_ids(s),
    ensures
        unique_ids(upserted(s, id, address, now)),
        lookup(upserted(s, id, address, now), id) == Some(
            match lookup(s, id) {
                Some(r) => refreshed(r, address, now),
                None => fresh_record(id, address, now),
            },
        ),
        forall|other: Seq<char>| other != id ==> lookup(upserted(s, id, address, now), other) == lookup(s, other),
        upserted(s, id, address, now).len() == if knows(s, id) { s.len() } else { s.len() + 1 },
{
    let t = upserted(s, id, address, now);
    if knows(s, id) {
        lemma_update_peer(s, id, |r: PeerRecordView| refreshed(r, address, now));
    } else {
        let n = s.len() as int;
        assert forall|i: int, j: int| 0 <= i < j < t.len() implies t[i].id != t[j].id by {
            if j == n {
                assert(s[i].id != id);
            }
        }
        assert(t[n].id == id);
        lemma_lookup_at(t, n);
        assert forall|other: Seq<char>| other != id implies lookup(t, other) == lookup(s, other) by {
            if knows(s, other) {
                let i = choose|i: int| 0 <= i < s.len() && (#[trigger] s[i]).id == other;
                lemma_lookup_at(s, i);
                assert(t[i] == s[i]);
                lemma_lookup_at(t, i);
            } else if knows(t, other) {
                let i = choose|i: int| 0 <= i < t.len() && (#[trigger] t[i]).id == other;
                assert(i < n);
                assert(s[i].id == other);
            }
        }
    }
}

/// The registry of known peers. It holds at most one record per peer.
pub struct Registry {
    records: Vec<PeerRecord>,
}

impl View for Registry {
    type V = Seq<PeerRecordView>;

    closed spec fn view(&self) -> Seq<PeerRecordView> {
        record_views(self.records@)
    }
}

impl Registry {
    /// The registry's invariant: no peer has two records.
    pub open spec fn wf(&self) -> bool {
        unique_ids(self@)
    }

    /// An empty registry.
    pub fn new() -> (registry: Registry)
        ensures
            registry.wf(),
            registry@ == Seq::<PeerRecordView>::empty(),
    {
        let registry = Registry { records: Vec::new() };
        assert(registry@ =~= Seq::<PeerRecordView>::empty());
        registry
    }

    /// The number of known peers.
    pub fn len(&self) -> (n: usize)
        ensures
            n == self@.len(),
    {
        self.records.len()
    }

    /// Whether no peer is known.
    pub fn is_empty(&self) -> (empty: bool)
        ensures
            empty == (self@.len() == 0),
    {
        self.records.len() == 0
    }

    /// The position of the record of the peer `id`.
    pub(crate) fn find(&self, id: &String) -> (found: Option<usize>)
        ensures
            match found {
                Some(i) => i < self@.len() && self@[i as int].id == id@,
                None => !knows(self@, id@),
            },
    {
        let n: usize = self.records.len();
        let mut i: usize = 0;
        while i < n
            invariant
                n == self.records@.len(),
                i <= n,
                forall|j: int| 0 <= j < i ==> (#[trigger] self@[j]).id != id@,
            decreases n - i,
        {
            if self.records[i].id == *id {
                return Some(i);
            }
            i = i + 1;
        }
        None
    }

    /// Whether the peer `id` has a record.
    pub fn contains(&self, id: &String) -> (known: bool)
        ensures
            known == knows(self@, id@),
    {
        self.find(id).is_some()
    }

    /// A copy of the record of the peer `id`, if the peer is known.
    pub fn get(&self, id: &String) -> (record: Option<PeerRecord>)
        requires
            self.wf(),
        ensures
            optional_view(record) == lookup(self@, id@),
    {
        match self.find(id) {
            Some(i) => {
                proof {
                    lemma_lookup_at(self@, i as int);
                }
                Some(self.records[i].duplicate())
            },
            None => None,
        }
    }

    /// The connection state of the peer `id`, if the peer is known.
    pub fn state(&self, id: &String) -> (state: Option<ConnectionState>)
        requires
            self.wf(),
        ensures
            state == state_of(self@, id@),
    {
        match self.find(id) {
            Some(i) => {
                proof {
                    lemma_lookup_at(self@, i as int);
                }
                Some(self.records[i].connection_state)
            },
            None => None,
        }
    }

    /// A snapshot of all records, in the order in which the peers were first
    /// announced. Later changes to the registry do not show in it.
    pub fn all(&self) -> (records: Vec<PeerRecord>)
        ensures
            record_views(records@) == self@,
    {
        let n: usize = self.records.len();
        let mut out: Vec<PeerRecord> = Vec::new();
        let mut i: usize = 0;
        while i < n
            invariant
                n == self.records@.len(),
                i <= n,
                out@.len() == i,
                forall|j: int| 0 <= j < i ==> (#[trigger] out@[j])@ == self.records@[j]@,
            decreases n - i,
        {
            out.push(self.records[i].duplicate());
            i = i + 1;
        }
        assert(record_views(out@) =~= self@);
        out
    }

    /// Records an announcement of the peer `id` at `address`, made at time
    /// `now`. A known peer's address and time of last announcement are
    /// replaced; its connection state and liveness counters are kept. An
    /// unknown peer gets a fresh record. Returns a copy of the peer's record
    /// as it stands afterwards.
    pub fn upsert(&mut self, id: String, address: String, now: u64) -> (record: PeerRecord)
        requires
            old(self).wf(),
        ensures
            final(self).wf(),
            final(self)@ == upserted(old(self)@, id@, address@, now),
            Some(record@) == lookup(final(self)@, id@),
    {
        proof {
            lemma_upserted(self@, id@, address@, now);
        }
        match self.find(&id) {
            Some(i) => {
                self.records[i].address = address;
                self.records[i].last_seen = now;
                assert(self@ =~= upserted(old(self)@, id@, address@, now));
                proof {
                    lemma_lookup_at(self@, i as int);
                }
                self.records[i].duplicate()
            },
            None => {
                let record = PeerRecord::new(id, address, now);
                let copy = record.duplicate();
                self.records.push(record);
                assert(self@ =~= upserted(old(self)@, id@, address@, now));
                copy
            },
        }
    }

    /// Records the outcome of a probe. A reply stores the round-trip time,
    /// clears the timeout counter and turns a peer that was unknown or being
    /// dialed into a connected one. A timeout adds one to the counter. A
    /// dropped connection marks the peer disconnected at once. A result for a
    /// peer without a record changes nothing. Returns whether the peer is
    /// known.
    pub fn record_probe(&mut self, result: &ProbeResult) -> (known: bool)
        requires
            old(self).wf(),
        ensures
            final(self).wf(),
            final(self)@ == after_probe(old(self)@, result.peer@, result.outcome),
            known == knows(old(self)@, result.peer@),
    {
        let ghost change = |r: PeerRecordView| probed(r, result.outcome);
        proof {
            lemma_update_peer(self@, result.peer@, change);
        }
        match self.find(&result.peer) {
            Some(i) => {
                match result.outcome {
                    ProbeOutcome::Success(rtt) => {
                        let state = self.records[i].connection_state;
                        self.records[i].connection_state = contact(state);
                        self.records[i].last_rtt = Some(rtt);
                        self.records[i].consecutive_timeouts = 0;
                    },
                    ProbeOutcome::Timeout => {
                        let count: u64 = self.records[i].consecutive_timeouts;
                        if count < u64::MAX {
                            self.records[i].consecutive_timeouts = count + 1;
                        }
                    },
                    ProbeOutcome::Unreachable => {
                        self.records[i].connection_state = ConnectionState::Disconnected;
                    },
                }
                assert(self@ =~= after_probe(old(self)@, result.peer@, result.outcome));
                true
            },
            None => false,
        }
    }

    /// The connection state in the record at position `i`.
    pub(crate) fn state_at(&self, i: usize) -> (state: ConnectionState)
        requires
            i < self@.len(),
        ensures
            state == self@[i as int].connection_state,
    {
        self.records[i].connection_state
    }

    /// The number of consecutive timeouts in the record at position `i`.
    pub(crate) fn timeouts_at(&self, i: usize) -> (count: u64)
        requires
            i < self@.len(),
        ensures
            count == self@[i as int].consecutive_timeouts,
    {
        self.records[i].consecutive_timeouts
    }

    /// Sets the connection state in the record at position `i`.
    pub(crate) fn set_state_at(&mut self, i: usize, state: ConnectionState)
        requires
            old(self).wf(),
            i < old(self)@.len(),
        ensures
            final(self).wf(),
            final(self)@ == old(self)@.update(i as int, with_state(old(self)@[i as int], state)),
    {
        self.records[i].connection_state = state;
        assert(self@ =~= old(self)@.update(i as int, with_state(old(self)@[i as int], state)));
    }

    /// Sets the connection state and the number of consecutive timeouts in
    /// the record at position `i`.
    pub(crate) fn set_liveness_at(&mut self, i: usize, state: ConnectionState, timeouts: u64)
        requires
            old(self).wf(),
            i < old(self)@.len(),
        ensures
            final(self).wf(),
            final(self)@ == old(self)@.update(
                i as int,
                PeerRecordView {
                    connection_state: state,
                    consecutive_timeouts: timeouts,
                    ..old(self)@[i as int]
                },
            ),
    {
        self.records[i].connection_state = state;
        self.records[i].consecutive_timeouts = timeouts;
        assert(self@ =~= old(self)@.update(
            i as int,
            PeerRecordView {
                connection_state: state,
                consecutive_timeouts: timeouts,
                ..old(self)@[i as int]
            },
        ));
    }

    /// Sets the connection state of the peer `id`. Returns whether the peer is
    /// known; for an unknown peer nothing changes.
    pub(crate) fn set_state(&mut self, id: &String, state: ConnectionState) -> (known: bool)
        requires
            old(self).wf(),
        ensures
            final(self).wf(),
            final(self)@ == after_state_change(old(self)@, id@, state),
            known == knows(old(self)@, id@),
    {
        let ghost change = |r: PeerRecordView| with_state(r, state);
        proof {
            lemma_update_peer(self@, id@, change);
        }
        match self.find(id) {
            Some(i) => {
                self.records[i].connection_state = state;
                assert(self@ =~= after_state_change(old(self)@, id@, state));
                true
            },
            None => false,
        }
    }
}

/// The connection state after a sign of life from the peer.
pub fn contact(state: ConnectionState) -> (next: ConnectionState)
    ensures
        next == state_after_contact(state),
{
    match state {
        ConnectionState::Unknown | ConnectionState::Dialing => ConnectionState::Connected,
        ConnectionState::Connected => ConnectionState::Connected,
        ConnectionState::Disconnected => ConnectionState::Disconnected,
    }
}

} // verus!
