use vstd::prelude::*;
use crate::peer::{PeerIdentity, LOCAL_PEER_ID};
use crate::transport::MultipeerTransport;

verus! {

/// The display name under which an endpoint's discovery transport presents itself.
pub open spec fn discovery_display_name() -> Seq<char> {
    seq!['I', 'r', 'o', 'h', 'M', 'p', 'c', 'D', 'i', 's', 'c', 'o', 'v', 'e', 'r', 'y']
}

/// A networking endpoint, with the local-network discovery transport attached to it.
#[derive(Debug)]
pub struct Endpoint {
    pub mpc_transport: Option<MultipeerTransport>,
}

impl Endpoint {
    /// An endpoint with no discovery attached.
    pub fn new() -> (r: Self)
        ensures
            r.mpc_transport is None,
    {
        Endpoint { mpc_transport: None }
    }

    /// Attaches a discovery transport for the local peer and asks it to advertise and to
    /// browse under the descriptor of `service_type`. The transport has no session yet,
    /// so both requests leave it idle until one is established.
    pub fn discovery_apple_mpc(self, service_type: &str) -> (r: Self)
        ensures
            r.mpc_transport matches Some(t) && {
                &&& t.wf()
                &&& t.peer_id.id == LOCAL_PEER_ID
                &&& t.peer_id.display_name@ == discovery_display_name()
                &&& t.delegate is None
                &&& t.advertiser is None
                &&& t.browser is None
            },
    {
        let mut mpc_transport = MultipeerTransport::new(PeerIdentity::local("IrohMpcDiscovery"));
        proof {
            reveal_strlit("IrohMpcDiscovery");
            assert(mpc_transport.peer_id.display_name@ =~= discovery_display_name());
        }
        mpc_transport.start_advertising(service_type);
        mpc_transport.start_browsing(service_type);
        Endpoint { mpc_transport: Some(mpc_transport), ..self }
    }
}

} // verus!
