use vstd::prelude::*;
use vstd::slice::slice_to_vec;
use crate::delegate::{dispatch, Notification, SessionDelegate, TransportEvent};
use crate::peer::{PeerIdentity, LOCAL_PEER_ID};
use crate::registry::{
    connected_in, lemma_wanted_connected_member, mentions, state_in,
    wanted_connected_in, ConnectionState, PeerEntry,
};
use crate::service::{format_service_type, service_descriptor};

verus! {

/// Where a session stands in its life.
#[derive(Clone, Copy, Debug, PartialEq, Eq, Structural)]
pub enum SessionPhase {
    /// Built, waiting for the transport to start advertising and browsing.
    Starting,
    /// Advertising and browsing; events are delivered and sends go out.
    Established,
    /// The transport could not start.
    Failed,
    /// Shut down.
    Closed,
}

/// The errors of a session.
#[derive(Debug)]
pub enum SessionError {
    /// The transport could not start advertising and browsing.
    ConstructionFailed,
    /// There is no live session: it never started, or it was shut down.
    SessionNotEstablished,
    /// The transport refused a transmission, for all its targets at once.
    SendError(String),
}

/// How the transport is to deliver a payload.
#[derive(Clone, Copy, Debug, PartialEq, Eq, Structural)]
pub enum SendMode {
    /// Acknowledged and retried.
    Reliable,
    /// Best effort, a single attempt.
    Unreliable,
}

/// The mode that the `reliably` flag of a send asks for.
pub open spec fn mode_for(reliably: bool) -> SendMode {
    if reliably {
        SendMode::Reliable
    } else {
        SendMode::Unreliable
    }
}

/// A payload to hand to the transport, with the peers it goes to.
#[derive(Debug)]
pub struct Transmission {
    pub payload: Vec<u8>,
    pub targets: Vec<PeerIdentity>,
    pub mode: SendMode,
}

/// What a session is, abstractly.
pub struct SessionView {
    /// The descriptor the session advertises and browses under.
    pub service_type: Seq<char>,
    /// The local peer.
    pub local: PeerIdentity,
    pub phase: SessionPhase,
    /// The connection registry.
    pub registry: Seq<PeerEntry>,
    /// Whether the delegate still delivers events.
    pub live: bool,
}

/// Whether events reaching a session with view `v` are dispatched to the handlers.
pub open spec fn delivers(v: SessionView) -> bool {
    v.phase == SessionPhase::Established && v.live
}

/// Whether shutting down a session with view `v` has a transport to tear down.
pub open spec fn teardown_due(v: SessionView) -> bool {
    v.phase == SessionPhase::Established
}

/// The session `v` after shutdown.
pub open spec fn shut_down(v: SessionView) -> SessionView {
    SessionView { phase: SessionPhase::Closed, live: false, ..v }
}

/// The display name the local peer of a session goes by.
pub open spec fn local_display_name() -> Seq<char> {
    seq!['r', 'u', 's', 't', '-', 'p', 'e', 'e', 'r']
}

/// The session façade: it owns the local identity, the descriptor and the delegate with
/// its registry, and decides what the transport is asked to do.
#[derive(Debug)]
pub struct MultipeerSession {
    service_type: String,
    peer_id: PeerIdentity,
    phase: SessionPhase,
    delegate: SessionDelegate,
}

impl View for MultipeerSession {
    type V = SessionView;

    closed spec fn view(&self) -> SessionView {
        SessionView {
            service_type: self.service_type@,
            local: self.peer_id,
            phase: self.phase,
            registry: self.delegate.state.registry@,
            live: self.delegate.state.live,
        }
    }
}

impl MultipeerSession {
    pub closed spec fn wf(&self) -> bool {
        self.delegate.wf()
    }

    /// A session for `service_name`, waiting for the transport to start. The transport
    /// is to advertise and browse under `service_type()`, for `local_peer()`.
    pub fn new(service_name: &str) -> (r: Self)
        ensures
            r.wf(),
            r@.service_type == service_descriptor(service_name@),
            r@.local.id == LOCAL_PEER_ID,
            r@.local.display_name@ == local_display_name(),
            r@.phase == SessionPhase::Starting,
            r@.registry == Seq::<PeerEntry>::empty(),
            r@.live,
    {
        let service_type = format_service_type(service_name);
        let peer_id = PeerIdentity::local("rust-peer");
        proof {
            reveal_strlit("rust-peer");
            assert(peer_id.display_name@ =~= local_display_name());
        }
        MultipeerSession {
            service_type,
            peer_id,
            phase: SessionPhase::Starting,
            delegate: SessionDelegate::new(),
        }
    }

    /// Records whether the transport started advertising and browsing. A session whose
    /// transport failed to start is unusable and reports `ConstructionFailed`.
    pub fn initialize(&mut self, transport_started: bool) -> (r: Result<(), SessionError>)
        requires
            old(self).wf(),
            old(self)@.phase == SessionPhase::Starting,
        ensures
            final(self).wf(),
            transport_started ==> r is Ok && final(self)@ == (SessionView {
                phase: SessionPhase::Established,
                ..old(self)@
            }),
            !transport_started ==> r == Err::<(), SessionError>(SessionError::ConstructionFailed)
                && final(self)@ == (SessionView {
                phase: SessionPhase::Failed,
                live: false,
                ..old(self)@
            }),
    {
        if transport_started {
            self.phase = SessionPhase::Established;
            Ok(())
        } else {
            self.phase = SessionPhase::Failed;
            self.delegate.detach();
            Err(SessionError::ConstructionFailed)
        }
    }

    /// The descriptor the session advertises and browses under.
    pub fn service_type(&self) -> (r: &String)
        ensures
            r@ == self@.service_type,
    {
        &self.service_type
    }

    /// The local peer.
    pub fn local_peer(&self) -> (r: &PeerIdentity)
        ensures
            *r == self@.local,
    {
        &self.peer_id
    }

    /// The phase the session is in.
    pub fn phase(&self) -> (r: SessionPhase)
        ensures
            r == self@.phase,
    {
        self.phase
    }

    /// Whether the session is live: started, and not shut down.
    pub fn is_established(&self) -> (r: bool)
        ensures
            r == (self@.phase == SessionPhase::Established),
    {
        self.phase == SessionPhase::Established
    }

    /// Plans sending `data` to `peers`. Without a live session the send fails with
    /// `SessionNotEstablished`. Otherwise it succeeds, and the transmission goes to the
    /// peers of `peers` that are connected now, once each; peers that are not connected
    /// are left out silently, and with none left there is nothing to transmit.
    pub fn send_to_peers(&self, data: &[u8], peers: &[PeerIdentity], reliably: bool) -> (r: Result<
        Option<Transmission>,
        SessionError,
    >)
        requires
            self.wf(),
        ensures
            self@.phase != SessionPhase::Established ==> r == Err::<
                Option<Transmission>,
                SessionError,
            >(SessionError::SessionNotEstablished),
            self@.phase == SessionPhase::Established ==> r is Ok,
            r matches Ok(None) ==> wanted_connected_in(self@.registry, peers@).len() == 0,
            r matches Ok(Some(t)) ==> {
                &&& t.payload@ == data@
                &&& t.targets@ == wanted_connected_in(self@.registry, peers@)
                &&& t.targets@.len() > 0
                &&& t.mode == mode_for(reliably)
            },
            r matches Ok(Some(t)) ==> forall|i: int|
                0 <= i < t.targets@.len() ==> state_in(self@.registry, #[trigger] t.targets@[i].id)
                    == ConnectionState::Connected && mentions(peers@, t.targets@[i].id),
    {
        if self.phase != SessionPhase::Established {
            return Err(SessionError::SessionNotEstablished);
        }
        let targets = self.delegate.state.registry.connected_among(peers);
        proof {
            assert forall|i: int| 0 <= i < targets@.len() implies state_in(
                self@.registry,
                #[trigger] targets@[i].id,
            ) == ConnectionState::Connected && mentions(peers@, targets@[i].id) by {
                lemma_wanted_connected_member(self@.registry, peers@, i);
            }
        }
        if targets.len() == 0 {
            return Ok(None);
        }
        let mode = if reliably {
            SendMode::Reliable
        } else {
            SendMode::Unreliable
        };
        Ok(Some(Transmission { payload: slice_to_vec(data), targets, mode }))
    }

    /// The peers connected now, in the order the registry first saw them; none
    /// without a live session.
    pub fn connected_peers(&self) -> (r: Vec<PeerIdentity>)
        ensures
            self@.phase == SessionPhase::Established ==> r@ == connected_in(self@.registry),
            self@.phase != SessionPhase::Established ==> r@ == Seq::<PeerIdentity>::empty(),
    {
        if self.phase == SessionPhase::Established {
            self.delegate.state.registry.connected_peers()
        } else {
            Vec::new()
        }
    }

    /// Passes a transport event to the delegate, and returns the notification for the
    /// handlers, if any. Events reaching a session that is not live are dropped.
    pub fn handle_event(&mut self, event: TransportEvent) -> (r: Option<Notification>)
        requires
            old(self).wf(),
        ensures
            final(self).wf(),
            delivers(old(self)@) ==> (final(self)@.registry, r) == dispatch(
                old(self)@.registry,
                event,
            ),
            delivers(old(self)@) ==> final(self)@ == (SessionView {
                registry: final(self)@.registry,
                ..old(self)@
            }),
            !delivers(old(self)@) ==> final(self)@ == old(self)@ && r is None,
    {
        if self.phase != SessionPhase::Established {
            return None;
        }
        self.delegate.handle_event(event)
    }

    /// Shuts the session down: no event reaches the handlers afterwards, and sends fail.
    /// Returns whether there is a transport to tear down, which is so only on the
    /// first shutdown of an established session.
    pub fn shutdown(&mut self) -> (teardown: bool)
        requires
            old(self).wf(),
        ensures
            final(self).wf(),
            final(self)@ == shut_down(old(self)@),
            teardown == teardown_due(old(self)@),
    {
        let teardown = self.phase == SessionPhase::Established;
        self.phase = SessionPhase::Closed;
        self.delegate.detach();
        teardown
    }
}

/// The result of a send once the transport has answered: its refusal applies to the
/// whole send.
pub fn send_outcome(transport: Result<(), String>) -> (r: Result<(), SessionError>)
    ensures
        transport is Ok ==> r is Ok,
        transport matches Err(e) ==> r == Err::<(), SessionError>(SessionError::SendError(e)),
{
    match transport {
        Ok(()) => Ok(()),
        Err(e) => Err(SessionError::SendError(e)),
    }
}

/// Shutting down twice is shutting down once: the second shutdown finds nothing to tear
/// down and changes nothing, and a session that is shut down delivers no events and is
/// not live, so that sends fail.
pub proof fn lemma_shutdown_idempotent(v: SessionView)
    ensures
        shut_down(shut_down(v)) == shut_down(v),
        !teardown_due(shut_down(v)),
        !delivers(shut_down(v)),
        shut_down(v).phase != SessionPhase::Established,
        shut_down(v).registry == v.registry,
{
}

} // verus!
