use vstd::prelude::*;
use crate::peer::PeerIdentity;
use crate::registry::{
    connected_in, entries_unique, lemma_select_member, lemma_state_at, lemma_updated, state_in,
    updated, connected_entry, ConnectionRegistry, ConnectionState, PeerEntry,
};

verus! {

/// A change of a peer's membership in the session.
#[derive(Clone, Copy, Debug, PartialEq, Eq, Structural)]
pub enum MembershipChange {
    Joined,
    Left,
}

/// The membership change that a report of `next` for a peer in state `prev` announces:
/// a join on entering `Connected`, a departure on falling back to `NotConnected` from
/// `Connected` or `Connecting`, and nothing otherwise.
pub open spec fn membership_change(prev: ConnectionState, next: ConnectionState) -> Option<
    MembershipChange,
> {
    if prev != ConnectionState::Connected && next == ConnectionState::Connected {
        Some(MembershipChange::Joined)
    } else if prev != ConnectionState::NotConnected && next == ConnectionState::NotConnected {
        Some(MembershipChange::Left)
    } else {
        None
    }
}

/// An event that the transport delivers to the session.
#[derive(Debug)]
pub enum TransportEvent {
    PeerStateChanged { peer: PeerIdentity, state: ConnectionState },
    DataReceived { data: Vec<u8>, peer: PeerIdentity },
    StreamReceived { peer: PeerIdentity, name: String },
    ResourceProgress { peer: PeerIdentity, name: String },
}

/// What the application's handlers are to be told.
#[derive(Debug)]
pub enum Notification {
    PeerJoined(PeerIdentity),
    PeerLeft(PeerIdentity),
    DataReceived(Vec<u8>, PeerIdentity),
}

/// The notification for a membership change of `peer`.
pub open spec fn change_notification(change: Option<MembershipChange>, peer: PeerIdentity) -> Option<
    Notification,
> {
    match change {
        Some(MembershipChange::Joined) => Some(Notification::PeerJoined(peer)),
        Some(MembershipChange::Left) => Some(Notification::PeerLeft(peer)),
        None => None,
    }
}

/// What a live delegate makes of `event` on the registry entries `es`: the new entries,
/// and the notification for the handlers, if any.
pub open spec fn dispatch(es: Seq<PeerEntry>, event: TransportEvent) -> (Seq<PeerEntry>, Option<
    Notification,
>) {
    match event {
        TransportEvent::PeerStateChanged { peer, state } => (
            updated(es, peer, state),
            change_notification(membership_change(state_in(es, peer.id), state), peer),
        ),
        TransportEvent::DataReceived { data, peer } => (
            es,
            Some(Notification::DataReceived(data, peer)),
        ),
        _ => (es, None),
    }
}

/// What the delegate works on: the connection registry, and whether events are still
/// delivered (they stop once the session is torn down).
#[derive(Debug)]
pub struct SessionDelegateState {
    pub registry: ConnectionRegistry,
    pub live: bool,
}

/// The single entry point of transport events: it keeps the registry in step with the
/// reported states and says which handler each event calls for.
#[derive(Debug)]
pub struct SessionDelegate {
    pub state: SessionDelegateState,
}

impl SessionDelegate {
    pub open spec fn wf(&self) -> bool {
        self.state.registry.wf()
    }

    /// The state of peer `id` in the delegate's registry.
    pub open spec fn state_of(&self, id: u64) -> ConnectionState {
        self.state.registry.state_of(id)
    }

    /// A live delegate over an empty registry.
    pub fn new() -> (r: Self)
        ensures
            r.wf(),
            r.state.live,
            r.state.registry@ == Seq::<PeerEntry>::empty(),
    {
        SessionDelegate { state: SessionDelegateState { registry: ConnectionRegistry::new(), live: true } }
    }

    /// Handles a report that `peer` is now in `state`: the registry takes the new state,
    /// and the result names the handler the transition calls for. A detached delegate
    /// changes nothing and calls for none.
    pub fn peer_did_change_state(&mut self, peer: &PeerIdentity, state: ConnectionState) -> (r:
        Option<Notification>)
        requires
            old(self).wf(),
        ensures
            final(self).wf(),
            final(self).state.live == old(self).state.live,
            old(self).state.live ==> final(self).state.registry@ == updated(
                old(self).state.registry@,
                *peer,
                state,
            ),
            old(self).state.live ==> final(self).state_of(peer.id) == state,
            old(self).state.live ==> r == change_notification(
                membership_change(old(self).state_of(peer.id), state),
                *peer,
            ),
            !old(self).state.live ==> final(self).state.registry@ == old(self).state.registry@,
            !old(self).state.live ==> r is None,
    {
        if !self.state.live {
            return None;
        }
        let prev = self.state.registry.update(peer, state);
        if prev != ConnectionState::Connected && state == ConnectionState::Connected {
            Some(Notification::PeerJoined(peer.clone()))
        } else if prev != ConnectionState::NotConnected && state == ConnectionState::NotConnected {
            Some(Notification::PeerLeft(peer.clone()))
        } else {
            None
        }
    }

    /// Handles bytes received from `peer`: they go to the data handler unchanged, and the
    /// registry is not touched.
    pub fn did_receive_data(&self, data: Vec<u8>, peer: PeerIdentity) -> (r: Option<Notification>)
        ensures
            self.state.live ==> r == Some(Notification::DataReceived(data, peer)),
            !self.state.live ==> r is None,
    {
        if self.state.live {
            Some(Notification::DataReceived(data, peer))
        } else {
            None
        }
    }

    /// Handles any transport event. Streams and resource transfers are not handled by
    /// the session and call for no handler.
    pub fn handle_event(&mut self, event: TransportEvent) -> (r: Option<Notification>)
        requires
            old(self).wf(),
        ensures
            final(self).wf(),
            final(self).state.live == old(self).state.live,
            old(self).state.live ==> (final(self).state.registry@, r) == dispatch(
                old(self).state.registry@,
                event,
            ),
            !old(self).state.live ==> final(self).state.registry@ == old(self).state.registry@,
            !old(self).state.live ==> r is None,
    {
        match event {
            TransportEvent::PeerStateChanged { peer, state } => self.peer_did_change_state(
                &peer,
                state,
            ),
            TransportEvent::DataReceived { data, peer } => self.did_receive_data(data, peer),
            _ => None,
        }
    }

    /// Stops the delivery of events; the registry stays as it is.
    pub fn detach(&mut self)
        ensures
            !final(self).state.live,
            final(self).state.registry@ == old(self).state.registry@,
            final(self).state.registry.wf() == old(self).state.registry.wf(),
    {
        self.state.live = false;
    }
}

/// The registry entries after `states` are reported, in order, for `peer`.
pub open spec fn replay_peer(es: Seq<PeerEntry>, peer: PeerIdentity, states: Seq<ConnectionState>) -> Seq<
    PeerEntry,
>
    decreases states.len(),
{
    if states.len() == 0 {
        es
    } else {
        updated(replay_peer(es, peer, states.drop_last()), peer, states.last())
    }
}

/// The membership change announced for each of `states`, reported in order for `peer`.
pub open spec fn replay_changes(
    es: Seq<PeerEntry>,
    peer: PeerIdentity,
    states: Seq<ConnectionState>,
) -> Seq<Option<MembershipChange>>
    decreases states.len(),
{
    if states.len() == 0 {
        Seq::empty()
    } else {
        replay_changes(es, peer, states.drop_last()).push(
            membership_change(state_in(replay_peer(es, peer, states.drop_last()), peer.id), states.last()),
        )
    }
}

/// The state of `peer` just before the report `states[i]`.
pub open spec fn state_before(
    es: Seq<PeerEntry>,
    peer: PeerIdentity,
    states: Seq<ConnectionState>,
    i: int,
) -> ConnectionState {
    if i == 0 {
        state_in(es, peer.id)
    } else {
        states[i - 1]
    }
}

/// Whether some report in `states` takes `peer` from `Connecting` straight back to
/// `NotConnected`, an abandoned attempt.
pub open spec fn has_abandoned_attempt(
    es: Seq<PeerEntry>,
    peer: PeerIdentity,
    states: Seq<ConnectionState>,
) -> bool {
    exists|i: int|
        0 <= i < states.len() && state_before(es, peer, states, i) == ConnectionState::Connecting
            && #[trigger] states[i] == ConnectionState::NotConnected
}

/// Each report announces the change between the peer's previous state and the reported one.
proof fn lemma_replay_changes_pointwise(
    es: Seq<PeerEntry>,
    peer: PeerIdentity,
    states: Seq<ConnectionState>,
)
    requires
        entries_unique(es),
    ensures
        entries_unique(replay_peer(es, peer, states)),
        states.len() > 0 ==> state_in(replay_peer(es, peer, states), peer.id) == states.last(),
        replay_changes(es, peer, states).len() == states.len(),
        forall|i: int|
            0 <= i < states.len() ==> #[trigger] replay_changes(es, peer, states)[i]
                == membership_change(state_before(es, peer, states, i), states[i]),
    decreases states.len(),
{
    if states.len() > 0 {
        let prefix = states.drop_last();
        let n = states.len() - 1;
        lemma_replay_changes_pointwise(es, peer, prefix);
        lemma_updated(replay_peer(es, peer, prefix), peer, states.last());
        assert forall|i: int| 0 <= i < states.len() implies #[trigger] replay_changes(
            es,
            peer,
            states,
        )[i] == membership_change(state_before(es, peer, states, i), states[i]) by {
            if i < n {
                assert(replay_changes(es, peer, states)[i] == replay_changes(es, peer, prefix)[i]);
                assert(states[i] == prefix[i]);
                assert(state_before(es, peer, states, i) == state_before(es, peer, prefix, i));
            }
        }
    }
}

/// For any run of state reports for one peer, the peer's registry state is that of the
/// latest report; a join is announced exactly at the reports that enter `Connected`; a
/// departure exactly at the reports that fall back to `NotConnected` from another state,
/// which, where no `Connecting` attempt is abandoned, are the reports that leave
/// `Connected`; and a report that repeats the current state announces nothing.
pub proof fn lemma_single_peer_history(
    es: Seq<PeerEntry>,
    peer: PeerIdentity,
    states: Seq<ConnectionState>,
)
    requires
        entries_unique(es),
    ensures
        entries_unique(replay_peer(es, peer, states)),
        states.len() > 0 ==> state_in(replay_peer(es, peer, states), peer.id) == states.last(),
        replay_changes(es, peer, states).len() == states.len(),
        forall|i: int|
            0 <= i < states.len() ==> (#[trigger] replay_changes(es, peer, states)[i] == Some(
                MembershipChange::Joined,
            ) <==> (state_before(es, peer, states, i) != ConnectionState::Connected && states[i]
                == ConnectionState::Connected)),
        forall|i: int|
            0 <= i < states.len() ==> (#[trigger] replay_changes(es, peer, states)[i] == Some(
                MembershipChange::Left,
            ) <==> (state_before(es, peer, states, i) != ConnectionState::NotConnected
                && states[i] == ConnectionState::NotConnected)),
        forall|i: int|
            0 <= i < states.len() && states[i] == state_before(es, peer, states, i)
                ==> #[trigger] replay_changes(es, peer, states)[i] is None,
        !has_abandoned_attempt(es, peer, states) ==> forall|i: int|
            0 <= i < states.len() ==> (#[trigger] replay_changes(es, peer, states)[i] == Some(
                MembershipChange::Left,
            ) <==> (state_before(es, peer, states, i) == ConnectionState::Connected && states[i]
                == ConnectionState::NotConnected)),
{
    lemma_replay_changes_pointwise(es, peer, states);
}

/// The registry entries after each `(peer, state)` of `reports` is handled, in order.
pub open spec fn replay_reports(
    es: Seq<PeerEntry>,
    reports: Seq<(PeerIdentity, ConnectionState)>,
) -> Seq<PeerEntry>
    decreases reports.len(),
{
    if reports.len() == 0 {
        es
    } else {
        updated(replay_reports(es, reports.drop_last()), reports.last().0, reports.last().1)
    }
}

/// Whether `reports` hold a `Connected` report for peer `id` that no later
/// `NotConnected` report for it undoes.
pub open spec fn joined_and_not_left(reports: Seq<(PeerIdentity, ConnectionState)>, id: u64) -> bool {
    exists|i: int|
        0 <= i < reports.len() && #[trigger] reports[i].0.id == id && reports[i].1
            == ConnectionState::Connected && forall|j: int|
            i < j < reports.len() && #[trigger] reports[j].0.id == id ==> reports[j].1
                != ConnectionState::NotConnected
}

proof fn lemma_connected_after_reports(reports: Seq<(PeerIdentity, ConnectionState)>, id: u64)
    ensures
        entries_unique(replay_reports(Seq::empty(), reports)),
        state_in(replay_reports(Seq::empty(), reports), id) == ConnectionState::Connected
            ==> joined_and_not_left(reports, id),
    decreases reports.len(),
{
    if reports.len() > 0 {
        let prefix = reports.drop_last();
        let n = reports.len() - 1;
        let (p, s) = reports.last();
        lemma_connected_after_reports(prefix, id);
        lemma_updated(replay_reports(Seq::empty(), prefix), p, s);
        if state_in(replay_reports(Seq::empty(), reports), id) == ConnectionState::Connected {
            if id == p.id {
                assert(reports[n].0.id == id);
            } else {
                let i = choose|i: int|
                    0 <= i < prefix.len() && #[trigger] prefix[i].0.id == id && prefix[i].1
                        == ConnectionState::Connected && forall|j: int|
                        i < j < prefix.len() && #[trigger] prefix[j].0.id == id ==> prefix[j].1
                            != ConnectionState::NotConnected;
                assert(reports[i] == prefix[i]);
                assert forall|j: int| i < j < reports.len() && #[trigger] reports[j].0.id == id
                    implies reports[j].1 != ConnectionState::NotConnected by {
                    assert(j < n);
                    assert(reports[j] == prefix[j]);
                }
            }
        }
    }
}

/// Starting from an empty registry, every peer listed as connected after any run of
/// reports has had a `Connected` report and no `NotConnected` report since.
pub proof fn lemma_connected_peers_joined_and_not_left(
    reports: Seq<(PeerIdentity, ConnectionState)>,
    k: int,
)
    requires
        0 <= k < connected_in(replay_reports(Seq::empty(), reports)).len(),
    ensures
        joined_and_not_left(reports, connected_in(replay_reports(Seq::empty(), reports))[k].id),
{
    let es = replay_reports(Seq::empty(), reports);
    let p = connected_in(es)[k];
    lemma_connected_after_reports(reports, p.id);
    lemma_select_member(es, connected_entry(), k);
    let j = choose|j: int| 0 <= j < es.len() && #[trigger] es[j].peer == p && connected_entry()(es[j]);
    lemma_state_at(es, p.id, j);
}

} // verus!
