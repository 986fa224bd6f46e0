use iroh_discovery_playground::delegate::{Notification, SessionDelegate, TransportEvent};
use iroh_discovery_playground::peer::PeerIdentity;
use iroh_discovery_playground::registry::ConnectionState;

fn state_change(d: &mut SessionDelegate, id: u64, state: ConnectionState) -> Option<Notification> {
    d.handle_event(TransportEvent::PeerStateChanged { peer: PeerIdentity::new(id, "p"), state })
}

#[test]
fn repeated_connected_reports_join_once() {
    let mut d = SessionDelegate::new();
    let first = state_change(&mut d, 2, ConnectionState::Connected);
    assert!(matches!(first, Some(Notification::PeerJoined(ref p)) if p.id == 2));
    assert!(state_change(&mut d, 2, ConnectionState::Connected).is_none());
    assert!(state_change(&mut d, 2, ConnectionState::Connected).is_none());
    assert_eq!(d.state.registry.lookup(2), ConnectionState::Connected);
}

#[test]
fn full_cycle_joins_and_leaves_once_each() {
    let mut d = SessionDelegate::new();
    let states = [
        ConnectionState::Connecting,
        ConnectionState::Connected,
        ConnectionState::Connected,
        ConnectionState::NotConnected,
        ConnectionState::NotConnected,
        ConnectionState::Connecting,
        ConnectionState::Connected,
    ];
    let mut joined = 0;
    let mut left = 0;
    for s in states {
        match state_change(&mut d, 4, s) {
            Some(Notification::PeerJoined(p)) => {
                assert_eq!(p.id, 4);
                joined += 1;
            }
            Some(Notification::PeerLeft(p)) => {
                assert_eq!(p.id, 4);
                left += 1;
            }
            Some(Notification::DataReceived(..)) => panic!("no data was sent"),
            None => {}
        }
        assert_eq!(d.state.registry.lookup(4), s);
    }
    assert_eq!(joined, 2);
    assert_eq!(left, 1);
}

#[test]
fn abandoned_attempt_reports_departure() {
    let mut d = SessionDelegate::new();
    assert!(state_change(&mut d, 1, ConnectionState::Connecting).is_none());
    let r = state_change(&mut d, 1, ConnectionState::NotConnected);
    assert!(matches!(r, Some(Notification::PeerLeft(ref p)) if p.id == 1));
}

#[test]
fn not_connected_for_unknown_peer_is_silent() {
    let mut d = SessionDelegate::new();
    assert!(state_change(&mut d, 1, ConnectionState::NotConnected).is_none());
    assert_eq!(d.state.registry.len(), 1);
}

#[test]
fn leaving_connected_for_connecting_is_silent() {
    let mut d = SessionDelegate::new();
    state_change(&mut d, 1, ConnectionState::Connected);
    assert!(state_change(&mut d, 1, ConnectionState::Connecting).is_none());
    assert!(d.state.registry.connected_peers().is_empty());
}

#[test]
fn peers_are_tracked_independently() {
    let mut d = SessionDelegate::new();
    state_change(&mut d, 1, ConnectionState::Connected);
    let r = state_change(&mut d, 2, ConnectionState::Connected);
    assert!(matches!(r, Some(Notification::PeerJoined(ref p)) if p.id == 2));
    state_change(&mut d, 1, ConnectionState::NotConnected);
    assert_eq!(d.state.registry.lookup(2), ConnectionState::Connected);
    let peers: Vec<u64> = d.state.registry.connected_peers().iter().map(|p| p.id).collect();
    assert_eq!(peers, vec![2]);
}

#[test]
fn data_is_forwarded_unchanged() {
    let mut d = SessionDelegate::new();
    let r = d.handle_event(TransportEvent::DataReceived {
        data: b"payload".to_vec(),
        peer: PeerIdentity::new(3, "c"),
    });
    match r {
        Some(Notification::DataReceived(data, p)) => {
            assert_eq!(data, b"payload".to_vec());
            assert_eq!(p.id, 3);
        }
        _ => panic!("expected data notification"),
    }
    assert_eq!(d.state.registry.len(), 0);
}

#[test]
fn streams_and_resources_are_ignored() {
    let mut d = SessionDelegate::new();
    let s = d.handle_event(TransportEvent::StreamReceived {
        peer: PeerIdentity::new(1, "a"),
        name: "s".to_string(),
    });
    let r = d.handle_event(TransportEvent::ResourceProgress {
        peer: PeerIdentity::new(1, "a"),
        name: "r".to_string(),
    });
    assert!(s.is_none());
    assert!(r.is_none());
    assert_eq!(d.state.registry.len(), 0);
}

#[test]
fn detached_delegate_delivers_nothing() {
    let mut d = SessionDelegate::new();
    state_change(&mut d, 1, ConnectionState::Connected);
    d.detach();
    assert!(!d.state.live);
    assert!(state_change(&mut d, 1, ConnectionState::NotConnected).is_none());
    assert_eq!(d.state.registry.lookup(1), ConnectionState::Connected);
    assert!(d.did_receive_data(vec![1], PeerIdentity::new(1, "a")).is_none());
}
