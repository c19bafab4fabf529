//! The discovery listener: takes the announcements of the local discovery
//! mechanism, keeps the registry up to date with them, and asks for a dial of
//! every announced peer that is not yet dialed or connected.

use vstd::prelude::*;
use crate::dialer::{DialRequest, DialRequestView, after_dial, dial, dial_request};
use crate::peer::{ConnectionState, PeerRecordView};
use crate::registry::{
    Registry, after_state_change, lemma_update_peer, lemma_upserted, lookup, state_of,
    unique_ids, upserted, with_state,
};

verus! {

/// One peer seen on the local network, with the address it was seen at.
#[derive(Clone, Debug)]
pub struct Announcement {
    pub peer: String,
    pub address: String,
}

/// The mathematical value of an [`Announcement`].
pub ghost struct AnnouncementView {
    pub peer: Seq<char>,
    pub address: Seq<char>,
}

impl View for Announcement {
    type V = AnnouncementView;

    open spec fn view(&self) -> AnnouncementView {
        AnnouncementView { peer: self.peer@, address: self.address@ }
    }
}

/// The peers announced in one cycle of the discovery mechanism, in the order
/// in which they were reported.
#[derive(Clone, Debug)]
pub struct DiscoveryEvent {
    pub discovered: Vec<Announcement>,
}

impl View for DiscoveryEvent {
    type V = Seq<AnnouncementView>;

    open spec fn view(&self) -> Seq<AnnouncementView> {
        self.discovered@.map_values(|a: Announcement| a@)
    }
}

/// The mathematical values of a sequence of dial requests, in the same order.
pub open spec fn request_views(requests: Seq<DialRequest>) -> Seq<DialRequestView> {
    requests.map_values(|r: DialRequest| r@)
}

/// The registry after a disconnected peer `id` was seen again: the peer is
/// back where a newly announced peer starts. Any other peer stays as it is.
pub open spec fn reentered(s: Seq<PeerRecordView>, id: Seq<char>) -> Seq<PeerRecordView> {
    if state_of(s, id) == Some(ConnectionState::Disconnected) {
        after_state_change(s, id, ConnectionState::Unknown)
    } else {
        s
    }
}

/// The registry after the announcement of the peer `id` at `address` was
/// recorded, before any dial is asked for.
pub open spec fn rediscovered(
    s: Seq<PeerRecordView>,
    id: Seq<char>,
    address: Seq<char>,
    now: u64,
) -> Seq<PeerRecordView> {
    reentered(upserted(s, id, address, now), id)
}

/// The registry after one announcement was handled by a node whose own
/// identifier is `local`.
pub open spec fn after_announcement(
    s: Seq<PeerRecordView>,
    local: Seq<char>,
    a: AnnouncementView,
    now: u64,
) -> Seq<PeerRecordView> {
    if a.peer == local {
        s
    } else {
        after_dial(rediscovered(s, a.peer, a.address, now), a.peer)
    }
}

/// The dial that one announcement leads to, if it leads to one.
pub open spec fn announcement_request(
    s: Seq<PeerRecordView>,
    local: Seq<char>,
    a: AnnouncementView,
    now: u64,
) -> Option<DialRequestView> {
    if a.peer == local {
        None
    } else {
        dial_request(rediscovered(s, a.peer, a.address, now), a.peer, a.address)
    }
}

/// The registry after a batch of announcements was handled in order.
pub open spec fn after_announcements(
    s: Seq<PeerRecordView>,
    local: Seq<char>,
    batch: Seq<AnnouncementView>,
    now: u64,
) -> Seq<PeerRecordView>
    decreases batch.len(),
{
    if batch.len() == 0 {
        s
    } else {
        after_announcement(
            after_announcements(s, local, batch.drop_last(), now),
            local,
            batch.last(),
            now,
        )
    }
}

/// The dials that a batch of announcements leads to, in the order of the
/// announcements.
pub open spec fn announcement_requests(
    s: Seq<PeerRecordView>,
    local: Seq<char>,
    batch: Seq<AnnouncementView>,
    now: u64,
) -> Seq<DialRequestView>
    decreases batch.len(),
{
    if batch.len() == 0 {
        Seq::empty()
    } else {
        let earlier = announcement_requests(s, local, batch.drop_last(), now);
        let before = after_announcements(s, local, batch.drop_last(), now);
        match announcement_request(before, local, batch.last(), now) {
            Some(r) => earlier.push(r),
            None => earlier,
        }
    }
}

/// Recording an announcement keeps the identifiers unique, leaves the peer
/// known, and never leaves it disconnected.
pub proof fn lemma_rediscovered(s: Seq<PeerRecordView>, id: Seq<char>, address: Seq<char>, now: u64)
    requires
        unique_ids(s),
    ensures
        unique_ids(rediscovered(s, id, address, now)),
        state_of(rediscovered(s, id, address, now), id) == Some(
            match state_of(s, id) {
                Some(ConnectionState::Disconnected) | None => ConnectionState::Unknown,
                Some(state) => state,
            },
        ),
{
    let t = upserted(s, id, address, now);
    lemma_upserted(s, id, address, now);
    lemma_update_peer(t, id, |r: PeerRecordView| with_state(r, ConnectionState::Unknown));
}

/// Handling one announcement keeps the identifiers unique.
pub proof fn lemma_after_announcement(
    s: Seq<PeerRecordView>,
    local: Seq<char>,
    a: AnnouncementView,
    now: u64,
)
    requires
        unique_ids(s),
    ensures
        unique_ids(after_announcement(s, local, a, now)),
{
    if a.peer != local {
        lemma_rediscovered(s, a.peer, a.address, now);
        lemma_update_peer(
            rediscovered(s, a.peer, a.address, now),
            a.peer,
            |r: PeerRecordView| with_state(r, ConnectionState::Dialing),
        );
    }
}

/// Whether the peer `id` is neither being dialed nor connected in `s`: it is
/// unknown to the registry, not yet dialed, or disconnected.
pub open spec fn open_to_dial(s: Seq<PeerRecordView>, id: Seq<char>) -> bool {
    state_of(s, id) != Some(ConnectionState::Dialing) && state_of(s, id) != Some(
        ConnectionState::Connected,
    )
}

/// What one announcement does, peer by peer: the node's own announcement does
/// nothing; any other leaves the announced peer being dialed or connected,
/// asks for a dial exactly if the peer was neither, and touches no other peer.
pub proof fn lemma_announcement_effect(
    s: Seq<PeerRecordView>,
    local: Seq<char>,
    a: AnnouncementView,
    now: u64,
)
    requires
        unique_ids(s),
    ensures
        unique_ids(after_announcement(s, local, a, now)),
        forall|other: Seq<char>|
            other != a.peer ==> lookup(after_announcement(s, local, a, now), other) == lookup(
                s,
                other,
            ),
        a.peer != local ==> state_of(after_announcement(s, local, a, now), a.peer) == Some(
            if state_of(s, a.peer) == Some(ConnectionState::Connected) {
                ConnectionState::Connected
            } else {
                ConnectionState::Dialing
            },
        ),
        announcement_request(s, local, a, now) == if a.peer != local && open_to_dial(s, a.peer) {
            Some(DialRequestView { peer: a.peer, address: a.address })
        } else {
            None
        },
{
    if a.peer != local {
        let t = upserted(s, a.peer, a.address, now);
        let u = rediscovered(s, a.peer, a.address, now);
        lemma_upserted(s, a.peer, a.address, now);
        lemma_update_peer(t, a.peer, |r: PeerRecordView| with_state(r, ConnectionState::Unknown));
        lemma_rediscovered(s, a.peer, a.address, now);
        lemma_update_peer(u, a.peer, |r: PeerRecordView| with_state(r, ConnectionState::Dialing));
    }
}

/// Handling a batch of announcements keeps the identifiers unique.
pub proof fn lemma_after_announcements(
    s: Seq<PeerRecordView>,
    local: Seq<char>,
    batch: Seq<AnnouncementView>,
    now: u64,
)
    requires
        unique_ids(s),
    ensures
        unique_ids(after_announcements(s, local, batch, now)),
    decreases batch.len(),
{
    if batch.len() > 0 {
        lemma_after_announcements(s, local, batch.drop_last(), now);
        lemma_after_announcement(
            after_announcements(s, local, batch.drop_last(), now),
            local,
            batch.last(),
            now,
        );
    }
}

/// Handles one announcement for a node whose own identifier is `local_id`. An
/// announcement of the node itself is dropped. Any other is recorded in the
/// registry; a peer that was disconnected starts over; and a peer that is
/// then neither being dialed nor connected is dialed: it is marked as being
/// dialed, and the request for the transport is returned.
pub fn observe(
    registry: &mut Registry,
    local_id: &String,
    announcement: &Announcement,
    now: u64,
) -> (request: Option<DialRequest>)
    requires
        old(registry).wf(),
    ensures
        final(registry).wf(),
        final(registry)@ == after_announcement(old(registry)@, local_id@, announcement@, now),
        crate::dialer::optional_request(request) == announcement_request(
            old(registry)@,
            local_id@,
            announcement@,
            now,
        ),
{
    if announcement.peer == *local_id {
        return None;
    }
    proof {
        lemma_rediscovered(registry@, announcement.peer@, announcement.address@, now);
    }
    let record = registry.upsert(announcement.peer.clone(), announcement.address.clone(), now);
    let mut state = record.connection_state;
    if state == ConnectionState::Disconnected {
        registry.set_state(&announcement.peer, ConnectionState::Unknown);
        state = ConnectionState::Unknown;
    }
    assert(registry@ == rediscovered(old(registry)@, announcement.peer@, announcement.address@, now));
    if state == ConnectionState::Unknown {
        dial(registry, &announcement.peer, &announcement.address)
    } else {
        None
    }
}

/// Handles the announcements of one discovery event in order, and returns the
/// dials that they lead to, in the same order.
pub fn observe_all(
    registry: &mut Registry,
    local_id: &String,
    event: &DiscoveryEvent,
    now: u64,
) -> (requests: Vec<DialRequest>)
    requires
        old(registry).wf(),
    ensures
        final(registry).wf(),
        final(registry)@ == after_announcements(old(registry)@, local_id@, event@, now),
        request_views(requests@) == announcement_requests(old(registry)@, local_id@, event@, now),
{
    let n: usize = event.discovered.len();
    let mut requests: Vec<DialRequest> = Vec::new();
    let mut i: usize = 0;
    assert(event@.take(0) =~= Seq::<AnnouncementView>::empty());
    assert(request_views(requests@) =~= Seq::<DialRequestView>::empty());
    while i < n
        invariant
            registry.wf(),
            n == event.discovered@.len(),
            n == event@.len(),
            i <= n,
            registry@ == after_announcements(old(registry)@, local_id@, event@.take(i as int), now),
            request_views(requests@) == announcement_requests(
                old(registry)@,
                local_id@,
                event@.take(i as int),
                now,
            ),
        decreases n - i,
    {
        let ghost before = requests@;
        proof {
            let next = event@.take(i as int + 1);
            assert(next.drop_last() =~= event@.take(i as int));
            assert(next.last() == event.discovered@[i as int]@);
        }
        let request = observe(registry, local_id, &event.discovered[i], now);
        match request {
            Some(r) => {
                requests.push(r);
                assert(request_views(requests@) =~= request_views(before).push(r@));
            },
            None => {},
        }
        i = i + 1;
    }
    assert(event@.take(n as int) =~= event@);
    requests
}

} // verus!
