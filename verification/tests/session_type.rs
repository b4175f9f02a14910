use dither_node::config::Config;
use dither_node::config::DitherConfig;
use dither_node::config::DitherProtocol;
use dither_node::session_type::DirectSession;
use dither_node::session_type::PeerStatus;
use dither_node::session_type::RouteCoord;
use dither_node::session_type::RoutedSession;
use dither_node::session_type::SessionType;
use dither_node::session_type::TraversedSession;
use dither_node::session_type::PEER_INCOMING;
use dither_node::session_type::PEER_OUTGOING;

fn direct(net_addr: u128) -> DirectSession {
    match DirectSession::new(net_addr) {
        SessionType::Direct(session) => session,
        other => panic!("unexpected {:?}", other),
    }
}

#[test]
fn new_direct_session_has_no_peer_status() {
    assert_eq!(
        DirectSession::new(77),
        SessionType::Direct(DirectSession { net_addr: 77, peer_status: PeerStatus { bits: 0 } })
    );
    assert_eq!(SessionType::direct(77), DirectSession::new(77));
    assert!(!direct(77).is_peer());
}

#[test]
fn peer_notify_sets_and_clears_the_incoming_bit() {
    let mut session = direct(5);
    session.record_peer_notify(0);
    assert_eq!(session.peer_status, PeerStatus { bits: 0b10 });
    session.record_peer_notify(usize::MAX);
    assert_eq!(session.peer_status, PeerStatus { bits: 0 });
    session.set_peer(true);
    session.record_peer_notify(3);
    assert_eq!(session.peer_status, PeerStatus { bits: 0b11 });
    assert!(session.peer_status.contains(PEER_INCOMING));
    session.record_peer_notify(usize::MAX);
    assert_eq!(session.peer_status, PeerStatus { bits: 0b01 });
    assert_eq!(session.net_addr, 5);
}

#[test]
fn set_peer_sets_and_clears_the_outgoing_bit() {
    let mut session = direct(5);
    session.set_peer(true);
    assert!(session.is_peer());
    assert_eq!(session.peer_status, PeerStatus { bits: 0b01 });
    session.record_peer_notify(1);
    session.set_peer(false);
    assert!(!session.is_peer());
    assert!(!session.peer_status.contains(PEER_OUTGOING));
    assert_eq!(session.peer_status, PeerStatus { bits: 0b10 });
}

#[test]
fn traversed_and_routed_sessions_keep_their_coordinate() {
    let at = RouteCoord { x: -4, y: 9 };
    assert_eq!(
        TraversedSession::new(at),
        SessionType::Traversed(TraversedSession { route_coord: at })
    );
    assert_eq!(SessionType::traversed(at), TraversedSession::new(at));
    assert_eq!(
        SessionType::routed(at, vec![3, 1, 2]),
        SessionType::Routed(RoutedSession { route_coord: at, proxy_nodes: vec![3, 1, 2] })
    );
}

#[test]
fn development_settings() {
    let config = Config::development();
    assert!(config.dev_mode);
    assert_eq!(config.pubsub_topic, "chat");
    let config = DitherConfig::development();
    assert!(config.dev_mode);
    assert_eq!(config.pubsub_topic, "chat");
    assert_eq!(DitherProtocol::new().protocol_info(), "/dither/1.0.0");
}
