use iroh_discovery_playground::peer::{PeerIdentity, LOCAL_PEER_ID};
use iroh_discovery_playground::registry::{mentions_exec, ConnectionRegistry, ConnectionState};

fn ids(peers: &[PeerIdentity]) -> Vec<u64> {
    peers.iter().map(|p| p.id).collect()
}

#[test]
fn peer_identity_constructors() {
    let b = PeerIdentity::new(7, "bob");
    assert_eq!(b.id, 7);
    assert_eq!(b.display_name, "bob");
    let me = PeerIdentity::local("me");
    assert_eq!(me.id, LOCAL_PEER_ID);
    assert!(b.same_peer(&PeerIdentity::new(7, "other name")));
    assert!(!b.same_peer(&me));
    let c = b.clone();
    assert_eq!(c.id, 7);
    assert_eq!(c.display_name, "bob");
}

#[test]
fn unknown_peer_is_not_connected() {
    let r = ConnectionRegistry::new();
    assert_eq!(r.len(), 0);
    assert_eq!(r.lookup(3), ConnectionState::NotConnected);
    assert!(r.connected_peers().is_empty());
}

#[test]
fn update_returns_previous_state() {
    let mut r = ConnectionRegistry::new();
    let b = PeerIdentity::new(2, "b");
    assert_eq!(r.update(&b, ConnectionState::Connecting), ConnectionState::NotConnected);
    assert_eq!(r.update(&b, ConnectionState::Connected), ConnectionState::Connecting);
    assert_eq!(r.update(&b, ConnectionState::Connected), ConnectionState::Connected);
    assert_eq!(r.lookup(2), ConnectionState::Connected);
    assert_eq!(r.len(), 1);
}

#[test]
fn entries_are_kept_after_disconnection() {
    let mut r = ConnectionRegistry::new();
    let b = PeerIdentity::new(2, "b");
    r.update(&b, ConnectionState::Connected);
    r.update(&b, ConnectionState::NotConnected);
    assert_eq!(r.len(), 1);
    assert_eq!(r.lookup(2), ConnectionState::NotConnected);
    r.update(&b, ConnectionState::Connected);
    assert_eq!(r.len(), 1);
    assert_eq!(ids(&r.connected_peers()), vec![2]);
}

#[test]
fn connected_peers_follow_registry_order() {
    let mut r = ConnectionRegistry::new();
    for id in [5u64, 3, 9, 1] {
        r.update(&PeerIdentity::new(id, "p"), ConnectionState::Connected);
    }
    r.update(&PeerIdentity::new(9, "p"), ConnectionState::NotConnected);
    r.update(&PeerIdentity::new(4, "p"), ConnectionState::Connecting);
    assert_eq!(ids(&r.connected_peers()), vec![5, 3, 1]);
}

#[test]
fn first_identity_seen_is_kept() {
    let mut r = ConnectionRegistry::new();
    r.update(&PeerIdentity::new(2, "first"), ConnectionState::Connecting);
    r.update(&PeerIdentity::new(2, "second"), ConnectionState::Connected);
    let peers = r.connected_peers();
    assert_eq!(peers.len(), 1);
    assert_eq!(peers[0].display_name, "first");
}

#[test]
fn connected_among_intersects_once_each() {
    let mut r = ConnectionRegistry::new();
    r.update(&PeerIdentity::new(1, "a"), ConnectionState::Connected);
    r.update(&PeerIdentity::new(2, "b"), ConnectionState::Connecting);
    r.update(&PeerIdentity::new(3, "c"), ConnectionState::Connected);
    let wanted = vec![
        PeerIdentity::new(3, "c"),
        PeerIdentity::new(2, "b"),
        PeerIdentity::new(3, "c again"),
        PeerIdentity::new(8, "unknown"),
        PeerIdentity::new(1, "a"),
    ];
    assert_eq!(ids(&r.connected_among(&wanted)), vec![1, 3]);
    assert!(r.connected_among(&[]).is_empty());
}

#[test]
fn mentions_by_id() {
    let peers = vec![PeerIdentity::new(4, "x"), PeerIdentity::new(6, "y")];
    assert!(mentions_exec(&peers, 6));
    assert!(!mentions_exec(&peers, 5));
    assert!(!mentions_exec(&[], 4));
}
