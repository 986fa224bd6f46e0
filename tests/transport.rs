use iroh_discovery_playground::discovery::Endpoint;
use iroh_discovery_playground::peer::{PeerIdentity, LOCAL_PEER_ID};
use iroh_discovery_playground::registry::ConnectionState;
use iroh_discovery_playground::session::SendMode;
use iroh_discovery_playground::transport::{MultipeerTransport, MAX_BROWSE_PEERS, MIN_BROWSE_PEERS};

#[test]
fn new_transport_is_idle() {
    let t = MultipeerTransport::new(PeerIdentity::local("MyDevice"));
    assert_eq!(t.peer_id.display_name, "MyDevice");
    assert!(t.delegate.is_none());
    assert!(t.advertiser.is_none());
    assert!(t.browser.is_none());
    assert!(t.send_message("hi").is_none());
}

#[test]
fn advertising_and_browsing_need_a_session() {
    let mut t = MultipeerTransport::new(PeerIdentity::local("MyDevice"));
    t.start_advertising("mpcservice");
    t.start_browsing("mpcservice");
    assert!(t.advertiser.is_none());
    assert!(t.browser.is_none());
}

#[test]
fn advertising_and_browsing_use_the_descriptor() {
    let mut t = MultipeerTransport::new(PeerIdentity::local("MyDevice"));
    t.establish_connection();
    t.start_advertising("mpc service!");
    t.start_browsing("mpc service!");
    assert_eq!(t.advertiser.as_deref(), Some("iroh-mpcservice"));
    let b = t.browser.as_ref().unwrap();
    assert_eq!(b.service_type, "iroh-mpcservice");
    assert_eq!(b.minimum_peers, MIN_BROWSE_PEERS);
    assert_eq!(b.maximum_peers, MAX_BROWSE_PEERS);
    assert_eq!((MIN_BROWSE_PEERS, MAX_BROWSE_PEERS), (1, 8));
}

#[test]
fn message_goes_reliably_to_connected_peers_as_utf8() {
    let mut t = MultipeerTransport::new(PeerIdentity::local("MyDevice"));
    t.establish_connection();
    assert!(t.send_message("héllo").is_none());
    let d = t.delegate.as_mut().unwrap();
    d.peer_did_change_state(&PeerIdentity::new(5, "e"), ConnectionState::Connected);
    d.peer_did_change_state(&PeerIdentity::new(6, "f"), ConnectionState::Connecting);
    let m = t.send_message("héllo").unwrap();
    assert_eq!(m.payload, vec![0x68, 0xc3, 0xa9, 0x6c, 0x6c, 0x6f]);
    assert_eq!(m.mode, SendMode::Reliable);
    let ids: Vec<u64> = m.targets.iter().map(|p| p.id).collect();
    assert_eq!(ids, vec![5]);
}

#[test]
fn establishing_again_replaces_the_session() {
    let mut t = MultipeerTransport::new(PeerIdentity::local("MyDevice"));
    t.establish_connection();
    t.delegate
        .as_mut()
        .unwrap()
        .peer_did_change_state(&PeerIdentity::new(5, "e"), ConnectionState::Connected);
    t.establish_connection();
    assert_eq!(t.delegate.as_ref().unwrap().state.registry.len(), 0);
}

#[test]
fn discovery_attaches_an_idle_transport() {
    let e = Endpoint::new();
    assert!(e.mpc_transport.is_none());
    let e = e.discovery_apple_mpc("example-service");
    let t = e.mpc_transport.as_ref().unwrap();
    assert_eq!(t.peer_id.id, LOCAL_PEER_ID);
    assert_eq!(t.peer_id.display_name, "IrohMpcDiscovery");
    assert!(t.delegate.is_none());
    assert!(t.advertiser.is_none());
    assert!(t.browser.is_none());
}
