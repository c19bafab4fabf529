//! The data that the membership core keeps about each peer.

use vstd::prelude::*;

verus! {

/// Where a peer stands in its connection life cycle.
#[derive(Clone, Copy, Debug, PartialEq, Eq, Structural)]
pub enum ConnectionState {
    /// Known from discovery, no connection attempted yet.
    Unknown,
    /// A connection attempt is in flight.
    Dialing,
    /// A connection is established and probed for liveness.
    Connected,
    /// The last attempt failed or the connection was declared dead.
    Disconnected,
}

/// Whether a peer in state `from` may be in state `to` one step later. A
/// peer may stay where it is. It moves forward from unknown over being dialed
/// to connected, and may skip ahead; it may be declared disconnected from
/// anywhere; and from disconnected it starts over, as unknown or, when it is
/// dialed at once, as being dialed.
pub open spec fn may_follow(from: ConnectionState, to: ConnectionState) -> bool {
    from == to || match (from, to) {
        (ConnectionState::Unknown, ConnectionState::Dialing) => true,
        (ConnectionState::Unknown, ConnectionState::Connected) => true,
        (ConnectionState::Dialing, ConnectionState::Connected) => true,
        (_, ConnectionState::Disconnected) => true,
        (ConnectionState::Disconnected, ConnectionState::Unknown) => true,
        (ConnectionState::Disconnected, ConnectionState::Dialing) => true,
        _ => false,
    }
}

/// What one liveness probe found. A round-trip time is in milliseconds.
#[derive(Clone, Copy, Debug, PartialEq, Eq, Structural)]
pub enum ProbeOutcome {
    /// The peer answered after the given round-trip time.
    Success(u64),
    /// No answer arrived within the probe timeout.
    Timeout,
    /// The transport reported that the connection itself is gone.
    Unreachable,
}

/// The outcome of one probe, together with the peer it was sent to.
#[derive(Clone, Debug)]
pub struct ProbeResult {
    pub peer: String,
    pub outcome: ProbeOutcome,
}

/// The mathematical value of a [`ProbeResult`].
pub ghost struct ProbeResultView {
    pub peer: Seq<char>,
    pub outcome: ProbeOutcome,
}

impl View for ProbeResult {
    type V = ProbeResultView;

    open spec fn view(&self) -> ProbeResultView {
        ProbeResultView { peer: self.peer@, outcome: self.outcome }
    }
}

/// Everything the registry knows about one peer. Times are in milliseconds.
#[derive(Clone, Debug)]
pub struct PeerRecord {
    pub id: String,
    pub address: String,
    pub connection_state: ConnectionState,
    pub last_seen: u64,
    pub last_rtt: Option<u64>,
    pub consecutive_timeouts: u64,
}

/// The mathematical value of a [`PeerRecord`]: the same fields, with the
/// identifier and the address as sequences of characters.
pub ghost struct PeerRecordView {
    pub id: Seq<char>,
    pub address: Seq<char>,
    pub connection_state: ConnectionState,
    pub last_seen: u64,
    pub last_rtt: Option<u64>,
    pub consecutive_timeouts: u64,
}

impl View for PeerRecord {
    type V = PeerRecordView;

    open spec fn view(&self) -> PeerRecordView {
        PeerRecordView {
            id: self.id@,
            address: self.address@,
            connection_state: self.connection_state,
            last_seen: self.last_seen,
            last_rtt: self.last_rtt,
            consecutive_timeouts: self.consecutive_timeouts,
        }
    }
}

/// The record that a first announcement of `id` at `address` creates: nothing
/// is known yet about the connection or its liveness.
pub open spec fn fresh_record(id: Seq<char>, address: Seq<char>, now: u64) -> PeerRecordView {
    PeerRecordView {
        id,
        address,
        connection_state: ConnectionState::Unknown,
        last_seen: now,
        last_rtt: None,
        consecutive_timeouts: 0,
    }
}

/// The mathematical values of a sequence of records, in the same order.
pub open spec fn record_views(records: Seq<PeerRecord>) -> Seq<PeerRecordView> {
    records.map_values(|r: PeerRecord| r@)
}

/// The mathematical value of a record that may be absent.
pub open spec fn optional_view(record: Option<PeerRecord>) -> Option<PeerRecordView> {
    match record {
        Some(r) => Some(r@),
        None => None,
    }
}

impl PeerRecord {
    /// A new record for a peer that was just announced for the first time.
    pub fn new(id: String, address: String, now: u64) -> (record: PeerRecord)
        ensures
            record@ == fresh_record(id@, address@, now),
    {
        PeerRecord {
            id,
            address,
            connection_state: ConnectionState::Unknown,
            last_seen: now,
            last_rtt: None,
            consecutive_timeouts: 0,
        }
    }

    /// An independent copy of this record.
    pub fn duplicate(&self) -> (copy: PeerRecord)
        ensures
            copy@ == self@,
    {
        PeerRecord {
            id: self.id.clone(),
            address: self.address.clone(),
            connection_state: self.connection_state,
            last_seen: self.last_seen,
            last_rtt: self.last_rtt,
            consecutive_timeouts: self.consecutive_timeouts,
        }
    }
}

} // verus!
