use vstd::prelude::*;
use crate::peer::PeerIdentity;

verus! {

/// Where a peer stands with respect to the local session.
#[derive(Clone, Copy, Debug, PartialEq, Eq, Structural)]
pub enum ConnectionState {
    NotConnected,
    Connecting,
    Connected,
}

/// One peer of the registry and its state.
#[derive(Debug)]
pub struct PeerEntry {
    pub peer: PeerIdentity,
    pub state: ConnectionState,
}

/// No two entries name the same peer.
pub open spec fn entries_unique(es: Seq<PeerEntry>) -> bool {
    forall|i: int, j: int|
        0 <= i < es.len() && 0 <= j < es.len() && i != j ==> #[trigger] es[i].peer.id
            != #[trigger] es[j].peer.id
}

/// Whether some entry names the peer `id`.
pub open spec fn has_peer(es: Seq<PeerEntry>, id: u64) -> bool {
    exists|i: int| 0 <= i < es.len() && #[trigger] es[i].peer.id == id
}

/// The state of peer `id`: that of its entry, and `NotConnected` for a peer with none.
pub open spec fn state_in(es: Seq<PeerEntry>, id: u64) -> ConnectionState {
    if has_peer(es, id) {
        es[choose|i: int| 0 <= i < es.len() && #[trigger] es[i].peer.id == id].state
    } else {
        ConnectionState::NotConnected
    }
}

/// The entries after `peer` is reported in `state`: an existing entry keeps its place and
/// identity and takes the new state; a new peer is appended.
pub open spec fn updated(es: Seq<PeerEntry>, peer: PeerIdentity, state: ConnectionState) -> Seq<
    PeerEntry,
> {
    if has_peer(es, peer.id) {
        let k = choose|i: int| 0 <= i < es.len() && #[trigger] es[i].peer.id == peer.id;
        es.update(k, PeerEntry { peer: es[k].peer, state })
    } else {
        es.push(PeerEntry { peer, state })
    }
}

/// Selects the entries in `Connected` state.
pub open spec fn connected_entry() -> spec_fn(PeerEntry) -> bool {
    |e: PeerEntry| e.state == ConnectionState::Connected
}

/// Selects the connected entries whose peer `wanted` mentions.
pub open spec fn wanted_connected_entry(wanted: Seq<PeerIdentity>) -> spec_fn(PeerEntry) -> bool {
    |e: PeerEntry| e.state == ConnectionState::Connected && mentions(wanted, e.peer.id)
}

/// The peer of an entry.
pub open spec fn entry_peer() -> spec_fn(PeerEntry) -> PeerIdentity {
    |e: PeerEntry| e.peer
}

/// Whether `peers` holds an identity of peer `id`.
pub open spec fn mentions(peers: Seq<PeerIdentity>, id: u64) -> bool {
    exists|i: int| 0 <= i < peers.len() && #[trigger] peers[i].id == id
}

/// The peers of the entries that `pred` selects, in registry order.
pub open spec fn select(es: Seq<PeerEntry>, pred: spec_fn(PeerEntry) -> bool) -> Seq<PeerIdentity> {
    es.filter(pred).map_values(entry_peer())
}

/// The connected peers, in registry order.
pub open spec fn connected_in(es: Seq<PeerEntry>) -> Seq<PeerIdentity> {
    select(es, connected_entry())
}

/// The connected peers that `wanted` mentions, in registry order.
pub open spec fn wanted_connected_in(es: Seq<PeerEntry>, wanted: Seq<PeerIdentity>) -> Seq<
    PeerIdentity,
> {
    select(es, wanted_connected_entry(wanted))
}

/// The entry found at `k` for `id` is the one `state_in` reads.
pub proof fn lemma_state_at(es: Seq<PeerEntry>, id: u64, k: int)
    requires
        entries_unique(es),
        0 <= k < es.len(),
        es[k].peer.id == id,
    ensures
        has_peer(es, id),
        state_in(es, id) == es[k].state,
{
    let j = choose|i: int| 0 <= i < es.len() && #[trigger] es[i].peer.id == id;
    assert(es[j].peer.id == id);
}

/// Reporting `peer` in `state` sets its state, leaves every other peer's state alone,
/// and keeps the entries unique.
pub proof fn lemma_updated(es: Seq<PeerEntry>, peer: PeerIdentity, state: ConnectionState)
    requires
        entries_unique(es),
    ensures
        entries_unique(updated(es, peer, state)),
        has_peer(updated(es, peer, state), peer.id),
        state_in(updated(es, peer, state), peer.id) == state,
        forall|x: u64|
            x != peer.id ==> (has_peer(updated(es, peer, state), x) == has_peer(es, x) && state_in(
                #[trigger] updated(es, peer, state),
                x,
            ) == state_in(es, x)),
{
    let nes = updated(es, peer, state);
    if has_peer(es, peer.id) {
        let k = choose|i: int| 0 <= i < es.len() && #[trigger] es[i].peer.id == peer.id;
        assert(nes.len() == es.len());
        assert forall|i: int| 0 <= i < nes.len() implies #[trigger] nes[i].peer.id
            == es[i].peer.id by {}
        lemma_state_at(nes, peer.id, k);
        assert forall|x: u64| x != peer.id implies (has_peer(nes, x) == has_peer(es, x)
            && state_in(#[trigger] updated(es, peer, state), x) == state_in(es, x)) by {
            if has_peer(es, x) {
                let j = choose|i: int| 0 <= i < es.len() && #[trigger] es[i].peer.id == x;
                lemma_state_at(es, x, j);
                assert(nes[j].peer.id == x);
                lemma_state_at(nes, x, j);
            }
            if has_peer(nes, x) {
                let j = choose|i: int| 0 <= i < nes.len() && #[trigger] nes[i].peer.id == x;
                assert(es[j].peer.id == x);
            }
        }
    } else {
        let n = es.len() as int;
        assert(nes[n].peer.id == peer.id);
        lemma_state_at(nes, peer.id, n);
        assert forall|x: u64| x != peer.id implies (has_peer(nes, x) == has_peer(es, x)
            && state_in(#[trigger] updated(es, peer, state), x) == state_in(es, x)) by {
            if has_peer(es, x) {
                let j = choose|i: int| 0 <= i < es.len() && #[trigger] es[i].peer.id == x;
                lemma_state_at(es, x, j);
                assert(nes[j].peer.id == x);
                lemma_state_at(nes, x, j);
            }
            if has_peer(nes, x) {
                let j = choose|i: int| 0 <= i < nes.len() && #[trigger] nes[i].peer.id == x;
                assert(j != n);
                assert(es[j].peer.id == x);
            }
        }
    }
}

/// One more entry extends a selection by its peer exactly when `pred` holds of it.
proof fn lemma_select_step(es: Seq<PeerEntry>, pred: spec_fn(PeerEntry) -> bool, i: int)
    requires
        0 <= i < es.len(),
    ensures
        select(es.take(i + 1), pred) == if pred(es[i]) {
            select(es.take(i), pred).push(es[i].peer)
        } else {
            select(es.take(i), pred)
        },
{
    reveal(Seq::filter);
    assert(es.take(i + 1).drop_last() =~= es.take(i));
    let before = es.take(i).filter(pred);
    if pred(es[i]) {
        assert(before.push(es[i]).map_values(entry_peer()) =~= before.map_values(
            entry_peer(),
        ).push(es[i].peer));
    }
}

/// Every peer of a selection comes from an entry that `pred` selects.
pub proof fn lemma_select_member(es: Seq<PeerEntry>, pred: spec_fn(PeerEntry) -> bool, i: int)
    requires
        0 <= i < select(es, pred).len(),
    ensures
        exists|j: int|
            0 <= j < es.len() && #[trigger] es[j].peer == select(es, pred)[i] && pred(es[j]),
{
    filter_element_origin(es, pred, i);
    let j = choose|j: int| 0 <= j < es.len() && #[trigger] es[j] == es.filter(pred)[i] && pred(es[j]);
    assert(es[j].peer == select(es, pred)[i]);
}

/// Every peer chosen from `wanted` is connected, and `wanted` mentions it.
pub proof fn lemma_wanted_connected_member(es: Seq<PeerEntry>, wanted: Seq<PeerIdentity>, k: int)
    requires
        entries_unique(es),
        0 <= k < wanted_connected_in(es, wanted).len(),
    ensures
        state_in(es, wanted_connected_in(es, wanted)[k].id) == ConnectionState::Connected,
        mentions(wanted, wanted_connected_in(es, wanted)[k].id),
{
    let p = wanted_connected_in(es, wanted)[k];
    lemma_select_member(es, wanted_connected_entry(wanted), k);
    let j = choose|j: int|
        0 <= j < es.len() && #[trigger] es[j].peer == p && wanted_connected_entry(wanted)(es[j]);
    lemma_state_at(es, p.id, j);
}

/// Each element of a filter is an element of the filtered sequence.
proof fn filter_element_origin(es: Seq<PeerEntry>, pred: spec_fn(PeerEntry) -> bool, i: int)
    requires
        0 <= i < es.filter(pred).len(),
    ensures
        exists|j: int| 0 <= j < es.len() && #[trigger] es[j] == es.filter(pred)[i] && pred(es[j]),
    decreases es.len(),
{
    reveal(Seq::filter);
    let prefix = es.drop_last();
    if i < prefix.filter(pred).len() {
        filter_element_origin(prefix, pred, i);
        let j = choose|j: int|
            0 <= j < prefix.len() && #[trigger] prefix[j] == prefix.filter(pred)[i] && pred(
                prefix[j],
            );
        assert(es[j] == prefix[j]);
    } else {
        let j = es.len() - 1;
        assert(es[j] == es.filter(pred)[i]);
    }
}

/// The mapping from peers to connection states, with each peer listed at most once.
#[derive(Debug)]
pub struct ConnectionRegistry {
    entries: Vec<PeerEntry>,
}

impl View for ConnectionRegistry {
    type V = Seq<PeerEntry>;

    closed spec fn view(&self) -> Seq<PeerEntry> {
        self.entries@
    }
}

impl ConnectionRegistry {
    pub open spec fn wf(&self) -> bool {
        entries_unique(self@)
    }

    /// The state of peer `id`.
    pub open spec fn state_of(&self, id: u64) -> ConnectionState {
        state_in(self@, id)
    }

    /// An empty registry.
    pub fn new() -> (r: Self)
        ensures
            r.wf(),
            r@ == Seq::<PeerEntry>::empty(),
    {
        ConnectionRegistry { entries: Vec::new() }
    }

    /// The number of peers the registry knows.
    pub fn len(&self) -> (r: usize)
        ensures
            r == self@.len(),
    {
        self.entries.len()
    }

    /// The position of the entry of peer `id`, if there is one.
    fn position(&self, id: u64) -> (r: Option<usize>)
        ensures
            match r {
                Some(k) => k < self@.len() && self@[k as int].peer.id == id,
                None => !has_peer(self@, id),
            },
    {
        let mut k: usize = 0;
        while k < self.entries.len()
            invariant
                k <= self@.len(),
                self@ == self.entries@,
                forall|i: int| 0 <= i < k ==> #[trigger] self@[i].peer.id != id,
            decreases self.entries.len() - k,
        {
            if self.entries[k].peer.id == id {
                return Some(k);
            }
            k = k + 1;
        }
        None
    }

    /// The state of peer `id`; `NotConnected` for a peer the registry does not know.
    pub fn lookup(&self, id: u64) -> (r: ConnectionState)
        requires
            self.wf(),
        ensures
            r == self.state_of(id),
    {
        match self.position(id) {
            Some(k) => {
                proof {
                    lemma_state_at(self@, id, k as int);
                }
                self.entries[k].state
            },
            None => ConnectionState::NotConnected,
        }
    }

    /// Records that `peer` is now in `state` and returns the state it was in before.
    pub fn update(&mut self, peer: &PeerIdentity, state: ConnectionState) -> (prev: ConnectionState)
        requires
            old(self).wf(),
        ensures
            prev == old(self).state_of(peer.id),
            final(self).wf(),
            final(self)@ == updated(old(self)@, *peer, state),
            final(self).state_of(peer.id) == state,
            forall|x: u64| x != peer.id ==> #[trigger] final(self).state_of(x) == old(self).state_of(x),
    {
        proof {
            lemma_updated(self@, *peer, state);
        }
        match self.position(peer.id) {
            Some(k) => {
                proof {
                    lemma_state_at(self@, peer.id, k as int);
                    let j = choose|i: int| 0 <= i < self@.len() && #[trigger] self@[i].peer.id == peer.id;
                    assert(self@[j].peer.id == peer.id);
                }
                let prev = self.entries[k].state;
                self.entries[k].state = state;
                prev
            },
            None => {
                self.entries.push(PeerEntry { peer: peer.clone(), state });
                ConnectionState::NotConnected
            },
        }
    }

    /// The peers currently connected, in registry order.
    pub fn connected_peers(&self) -> (r: Vec<PeerIdentity>)
        ensures
            r@ == connected_in(self@),
    {
        let mut out: Vec<PeerIdentity> = Vec::new();
        let mut i: usize = 0;
        while i < self.entries.len()
            invariant
                i <= self@.len(),
                self@ == self.entries@,
                out@ == select(self@.take(i as int), connected_entry()),
            decreases self.entries.len() - i,
        {
            proof {
                lemma_select_step(self@, connected_entry(), i as int);
            }
            if self.entries[i].state == ConnectionState::Connected {
                out.push(self.entries[i].peer.clone());
            }
            i = i + 1;
        }
        proof {
            assert(self@.take(self@.len() as int) =~= self@);
        }
        out
    }

    /// The peers of `wanted` that are currently connected, once each, in registry order.
    pub fn connected_among(&self, wanted: &[PeerIdentity]) -> (r: Vec<PeerIdentity>)
        ensures
            r@ == wanted_connected_in(self@, wanted@),
    {
        let mut out: Vec<PeerIdentity> = Vec::new();
        let mut i: usize = 0;
        while i < self.entries.len()
            invariant
                i <= self@.len(),
                self@ == self.entries@,
                out@ == select(self@.take(i as int), wanted_connected_entry(wanted@)),
            decreases self.entries.len() - i,
        {
            proof {
                lemma_select_step(self@, wanted_connected_entry(wanted@), i as int);
            }
            if self.entries[i].state == ConnectionState::Connected && mentions_exec(
                wanted,
                self.entries[i].peer.id,
            ) {
                out.push(self.entries[i].peer.clone());
            }
            i = i + 1;
        }
        proof {
            assert(self@.take(self@.len() as int) =~= self@);
        }
        out
    }
}

/// Whether `peers` holds an identity of peer `id`.
pub fn mentions_exec(peers: &[PeerIdentity], id: u64) -> (r: bool)
    ensures
        r == mentions(peers@, id),
{
    let mut i: usize = 0;
    while i < peers.len()
        invariant
            i <= peers@.len(),
            forall|j: int| 0 <= j < i ==> #[trigger] peers@[j].id != id,
        decreases peers.len() - i,
    {
        if peers[i].id == id {
            return true;
        }
        i = i + 1;
    }
    false
}

} // verus!
