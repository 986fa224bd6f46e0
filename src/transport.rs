use vstd::prelude::*;
use vstd::slice::slice_to_vec;
use vstd::string::StringSliceAdditionalSpecFns;
use crate::delegate::SessionDelegate;
use crate::peer::PeerIdentity;
use crate::registry::{connected_in, PeerEntry};
use crate::service::{format_service_type, service_descriptor};
use crate::session::{SendMode, Transmission};

verus! {

/// The fewest peers a browser asks to join a session.
pub const MIN_BROWSE_PEERS: u64 = 1;

/// The most peers a browser asks to join a session.
pub const MAX_BROWSE_PEERS: u64 = 8;

/// What the browser scans for, and how many peers it asks for.
#[derive(Debug)]
pub struct BrowserConfig {
    pub service_type: String,
    pub minimum_peers: u64,
    pub maximum_peers: u64,
}

/// The state of a transport binding: the local peer, the session once established
/// (held as the delegate that receives its events), and what is advertised and browsed.
#[derive(Debug)]
pub struct MultipeerTransport {
    pub peer_id: PeerIdentity,
    pub delegate: Option<SessionDelegate>,
    /// The descriptor advertised, once advertising has started.
    pub advertiser: Option<String>,
    pub browser: Option<BrowserConfig>,
}

impl MultipeerTransport {
    pub open spec fn wf(&self) -> bool {
        match self.delegate {
            Some(d) => d.wf(),
            None => true,
        }
    }

    /// A transport for `peer_id`, with no session and nothing advertised or browsed.
    pub fn new(peer_id: PeerIdentity) -> (r: Self)
        ensures
            r.wf(),
            r.peer_id == peer_id,
            r.delegate is None,
            r.advertiser is None,
            r.browser is None,
    {
        MultipeerTransport { peer_id, delegate: None, advertiser: None, browser: None }
    }

    /// Establishes a new session, with a live delegate over an empty registry in place of
    /// any earlier one.
    pub fn establish_connection(&mut self)
        ensures
            final(self).wf(),
            final(self).peer_id == old(self).peer_id,
            final(self).advertiser == old(self).advertiser,
            final(self).browser == old(self).browser,
            final(self).delegate matches Some(d) && d.state.live && d.state.registry@ == Seq::<
                PeerEntry,
            >::empty(),
    {
        self.delegate = Some(SessionDelegate::new());
    }

    /// Starts advertising under the descriptor of `service_type`. Without a session
    /// there is nothing to advertise and nothing changes.
    pub fn start_advertising(&mut self, service_type: &str)
        ensures
            final(self).peer_id == old(self).peer_id,
            final(self).delegate == old(self).delegate,
            final(self).browser == old(self).browser,
            old(self).delegate is Some ==> (final(self).advertiser matches Some(a) && a@
                == service_descriptor(service_type@)),
            old(self).delegate is None ==> final(self).advertiser == old(self).advertiser,
    {
        let formatted = format_service_type(service_type);
        if self.delegate.is_some() {
            self.advertiser = Some(formatted);
        }
    }

    /// Starts browsing for peers advertising the descriptor of `service_type`, asking for
    /// between `MIN_BROWSE_PEERS` and `MAX_BROWSE_PEERS` of them. Without a session
    /// nothing changes.
    pub fn start_browsing(&mut self, service_type: &str)
        ensures
            final(self).peer_id == old(self).peer_id,
            final(self).delegate == old(self).delegate,
            final(self).advertiser == old(self).advertiser,
            old(self).delegate is Some ==> (final(self).browser matches Some(b)
                && b.service_type@ == service_descriptor(service_type@) && b.minimum_peers
                == MIN_BROWSE_PEERS && b.maximum_peers == MAX_BROWSE_PEERS),
            old(self).delegate is None ==> final(self).browser == old(self).browser,
    {
        let formatted = format_service_type(service_type);
        if self.delegate.is_some() {
            self.browser = Some(
                BrowserConfig {
                    service_type: formatted,
                    minimum_peers: MIN_BROWSE_PEERS,
                    maximum_peers: MAX_BROWSE_PEERS,
                },
            );
        }
    }

    /// Plans sending `message`, as UTF-8, reliably to every connected peer. There is
    /// nothing to send without a session or without a connected peer.
    pub fn send_message(&self, message: &str) -> (r: Option<Transmission>)
        requires
            self.wf(),
        ensures
            self.delegate is None ==> r is None,
            self.delegate matches Some(d) ==> (connected_in(d.state.registry@).len() == 0 <==> r is None),
            self.delegate matches Some(d) ==> (r matches Some(t) ==> {
                &&& t.payload@ == message.spec_bytes()
                &&& t.targets@ == connected_in(d.state.registry@)
                &&& t.mode == SendMode::Reliable
            }),
    {
        match &self.delegate {
            None => None,
            Some(d) => {
                let targets = d.state.registry.connected_peers();
                if targets.len() == 0 {
                    None
                } else {
                    Some(
                        Transmission {
                            payload: slice_to_vec(message.as_bytes()),
                            targets,
                            mode: SendMode::Reliable,
                        },
                    )
                }
            },
        }
    }
}

} // verus!
