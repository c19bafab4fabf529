//! The connection dialer: decides whether a peer is to be dialed, marks it as
//! being dialed, and records how the attempt ended. At most one attempt per
//! peer is in flight at any time.

use vstd::prelude::*;
use crate::peer::{ConnectionState, PeerRecordView};
use crate::registry::{
    Registry, after_state_change, contact, knows, lemma_lookup_at, lemma_update_peer,
    lemma_update_peer_at, lookup, state_after_contact, state_of, unique_ids, update_peer,
    with_state,
};

verus! {

/// Why a connection attempt failed.
#[derive(Clone, Copy, Debug, PartialEq, Eq, Structural)]
pub enum DialError {
    /// The address could not be understood.
    MalformedAddress,
    /// The peer refused the connection.
    Refused,
    /// The transport failed while the connection was set up.
    Transport,
}

/// How a connection attempt ended.
#[derive(Clone, Copy, Debug, PartialEq, Eq, Structural)]
pub enum DialOutcome {
    /// The transport established the connection.
    Established,
    /// The attempt failed, for the given reason.
    Failed(DialError),
}

/// A request to the transport to connect to a peer.
#[derive(Clone, Debug)]
pub struct DialRequest {
    pub peer: String,
    pub address: String,
}

/// The mathematical value of a [`DialRequest`].
pub ghost struct DialRequestView {
    pub peer: Seq<char>,
    pub address: Seq<char>,
}

impl View for DialRequest {
    type V = DialRequestView;

    open spec fn view(&self) -> DialRequestView {
        DialRequestView { peer: self.peer@, address: self.address@ }
    }
}

/// The mathematical value of a dial request that may be absent.
pub open spec fn optional_request(request: Option<DialRequest>) -> Option<DialRequestView> {
    match request {
        Some(r) => Some(r@),
        None => None,
    }
}

/// Whether a dial of the peer `id` goes ahead: the peer has a record, and no
/// attempt is in flight and no connection stands.
pub open spec fn dial_goes_ahead(s: Seq<PeerRecordView>, id: Seq<char>) -> bool {
    state_of(s, id) == Some(ConnectionState::Unknown) || state_of(s, id) == Some(
        ConnectionState::Disconnected,
    )
}

/// The registry after a dial of the peer `id` was asked for.
pub open spec fn after_dial(s: Seq<PeerRecordView>, id: Seq<char>) -> Seq<PeerRecordView> {
    if dial_goes_ahead(s, id) {
        after_state_change(s, id, ConnectionState::Dialing)
    } else {
        s
    }
}

/// The request that a dial of the peer `id` at `address` hands to the
/// transport, if the dial goes ahead.
pub open spec fn dial_request(
    s: Seq<PeerRecordView>,
    id: Seq<char>,
    address: Seq<char>,
) -> Option<DialRequestView> {
    if dial_goes_ahead(s, id) {
        Some(DialRequestView { peer: id, address })
    } else {
        None
    }
}

/// A record after the transport established the connection: the peer counts
/// as connected unless it was declared disconnected in the meantime, and its
/// timeout counter starts from zero.
pub open spec fn established(r: PeerRecordView) -> PeerRecordView {
    PeerRecordView {
        connection_state: state_after_contact(r.connection_state),
        consecutive_timeouts: 0,
        ..r
    }
}

/// A record after a connection attempt ended in `outcome`.
pub open spec fn dial_finished(r: PeerRecordView, outcome: DialOutcome) -> PeerRecordView {
    match outcome {
        DialOutcome::Established => established(r),
        DialOutcome::Failed(_) => with_state(r, ConnectionState::Disconnected),
    }
}

/// The registry after the attempt to connect to the peer `id` ended in `outcome`.
pub open spec fn after_dial_outcome(
    s: Seq<PeerRecordView>,
    id: Seq<char>,
    outcome: DialOutcome,
) -> Seq<PeerRecordView> {
    update_peer(s, id, |r: PeerRecordView| dial_finished(r, outcome))
}

/// The failure that is reported when an attempt to connect to a known peer
/// ended in `outcome`.
pub open spec fn reported_failure(
    s: Seq<PeerRecordView>,
    id: Seq<char>,
    outcome: DialOutcome,
) -> Option<DialError> {
    match outcome {
        DialOutcome::Failed(error) if knows(s, id) => Some(error),
        _ => None,
    }
}

/// A record after every attempt in flight was cancelled.
pub open spec fn cancelled(r: PeerRecordView) -> PeerRecordView {
    if r.connection_state == ConnectionState::Dialing {
        with_state(r, ConnectionState::Disconnected)
    } else {
        r
    }
}

/// The registry after every attempt in flight was cancelled: no peer is left
/// as being dialed.
pub open spec fn after_cancel(s: Seq<PeerRecordView>) -> Seq<PeerRecordView> {
    s.map_values(|r: PeerRecordView| cancelled(r))
}

/// Cancelling keeps every record's identifier, and so keeps the identifiers
/// unique.
pub proof fn lemma_after_cancel(s: Seq<PeerRecordView>)
    requires
        unique_ids(s),
    ensures
        unique_ids(after_cancel(s)),
        after_cancel(s).len() == s.len(),
        forall|i: int| 0 <= i < s.len() ==> (#[trigger] after_cancel(s)[i]) == cancelled(s[i]),
        forall|id: Seq<char>| #[trigger]
            lookup(after_cancel(s), id) == match lookup(s, id) {
                Some(r) => Some(cancelled(r)),
                None => None,
            },
{
    let t = after_cancel(s);
    assert forall|i: int, j: int| 0 <= i < j < t.len() implies t[i].id != t[j].id by {
        assert(s[i].id != s[j].id);
    }
    assert forall|id: Seq<char>| #[trigger]
        lookup(t, id) == match lookup(s, id) {
            Some(r) => Some(cancelled(r)),
            None => None,
        } by {
        if knows(s, id) {
            let i = choose|i: int| 0 <= i < s.len() && (#[trigger] s[i]).id == id;
            lemma_lookup_at(s, i);
            assert(t[i].id == id);
            lemma_lookup_at(t, i);
        } else if knows(t, id) {
            let i = choose|i: int| 0 <= i < t.len() && (#[trigger] t[i]).id == id;
            assert(s[i].id == id);
        }
    }
}

/// Asks for a connection to the peer `id` at `address`. The dial goes ahead
/// only for a known peer that is neither being dialed nor connected: the peer
/// is then marked as being dialed and the request for the transport is
/// returned. In every other case nothing changes and nothing is returned.
pub fn dial(registry: &mut Registry, id: &String, address: &String) -> (request: Option<DialRequest>)
    requires
        old(registry).wf(),
    ensures
        final(registry).wf(),
        final(registry)@ == after_dial(old(registry)@, id@),
        optional_request(request) == dial_request(old(registry)@, id@, address@),
{
    let state = registry.state(id);
    match state {
        Some(ConnectionState::Unknown) | Some(ConnectionState::Disconnected) => {
            registry.set_state(id, ConnectionState::Dialing);
            Some(DialRequest { peer: id.clone(), address: address.clone() })
        },
        _ => None,
    }
}

/// Records how the attempt to connect to the peer `id` ended. Success makes
/// the peer connected; failure makes it disconnected and is returned, so that
/// it can be reported. Nothing is retried. For a peer without a record
/// nothing changes and nothing is returned.
pub fn dial_completed(registry: &mut Registry, id: &String, outcome: DialOutcome) -> (failure: Option<
    DialError,
>)
    requires
        old(registry).wf(),
    ensures
        final(registry).wf(),
        final(registry)@ == after_dial_outcome(old(registry)@, id@, outcome),
        failure == reported_failure(old(registry)@, id@, outcome),
{
    let ghost change = |r: PeerRecordView| dial_finished(r, outcome);
    proof {
        lemma_update_peer(registry@, id@, change);
    }
    match registry.find(id) {
        Some(i) => {
            proof {
                lemma_update_peer_at(registry@, i as int, change);
            }
            match outcome {
                DialOutcome::Established => {
                    let state = registry.state_at(i);
                    registry.set_liveness_at(i, contact(state), 0);
                    None
                },
                DialOutcome::Failed(error) => {
                    registry.set_state_at(i, ConnectionState::Disconnected);
                    Some(error)
                },
            }
        },
        None => None,
    }
}

/// Cancels every attempt in flight: each peer that is being dialed becomes
/// disconnected, so that none is left in that state for good.
pub fn cancel_dials(registry: &mut Registry)
    requires
        old(registry).wf(),
    ensures
        final(registry).wf(),
        final(registry)@ == after_cancel(old(registry)@),
{
    let n: usize = registry.len();
    let mut i: usize = 0;
    while i < n
        invariant
            registry.wf(),
            n == old(registry)@.len(),
            registry@.len() == n,
            i <= n,
            forall|j: int| 0 <= j < i ==> (#[trigger] registry@[j]) == cancelled(old(registry)@[j]),
            forall|j: int| i <= j < n ==> (#[trigger] registry@[j]) == old(registry)@[j],
        decreases n - i,
    {
        if registry.state_at(i) == ConnectionState::Dialing {
            registry.set_state_at(i, ConnectionState::Disconnected);
        }
        i = i + 1;
    }
    assert(registry@ =~= after_cancel(old(registry)@));
}

} // verus!
