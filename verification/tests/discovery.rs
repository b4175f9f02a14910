use dither_node::coordinates::Coordinates;
use dither_node::coordinates::NetworkCoord;
use dither_node::discovery::DiscoverySystem;
use dither_node::net::Address;
use dither_node::net::Connection;
use dither_node::net::EncryptionKeys;
use dither_node::net::Entity;
use dither_node::net::ListenerConfig;
use dither_node::net::Network;
use dither_node::net::NodeID;
use dither_node::node::Node;
use dither_node::packet::DiscoveryPacket;
use dither_node::packet::NodePacket;
use dither_node::session::EntitySessionEvent;
use dither_node::session::SessionAction;
use dither_node::session::SessionEvent;
use dither_node::world::NodeConfig;
use dither_node::world::NodeEffect;

struct PortNet;

impl Network for PortNet {
    fn predict_public_addresses(addr: &Address, config: &ListenerConfig) -> Vec<Address> {
        let host = addr.rsplit_once(':').map(|(host, _)| host).unwrap_or(addr.as_str());
        config
            .listen_addrs
            .iter()
            .map(|listen| {
                let port = listen.rsplit_once(':').map(|(_, port)| port).unwrap_or("0");
                format!("{}:{}", host, port)
            })
            .collect()
    }
}

struct SilentNet;

impl Network for SilentNet {
    fn predict_public_addresses(_addr: &Address, _config: &ListenerConfig) -> Vec<Address> {
        Vec::new()
    }
}

fn id(n: u8) -> NodeID {
    NodeID { hash: [n; 32] }
}

fn node(n: u8) -> Node {
    let config = NodeConfig {
        keys: EncryptionKeys { private_key: vec![n], public_key: vec![n] },
        node_id: id(n),
        listener_config: ListenerConfig { listen_addrs: vec!["0.0.0.0:5001".to_string()] },
    };
    let own = Coordinates {
        out_coord: NetworkCoord { bits: [0.25f64.to_bits(); 5] },
        in_coord: NetworkCoord { bits: [0.5f64.to_bits(); 5] },
    };
    Node::new(config, own).unwrap()
}

fn connect(node: &mut Node, remote: u8, address: &str, requested: bool) -> Entity {
    let connection = Connection {
        incoming_address: address.to_string(),
        remote_pub_key: vec![remote],
        persistent_state: vec![],
        requested,
    };
    node.handle_connection(connection, id(remote)).0.unwrap()
}

fn packet_from(node: &mut Node, entity: Entity, packet: DiscoveryPacket) -> Vec<NodeEffect> {
    node.handle_session_events(
        EntitySessionEvent {
            entity,
            event: SessionEvent::Packet(NodePacket::DiscoveryPacket(packet)),
        },
        0,
    )
}

fn send(entity: Entity, packet: DiscoveryPacket) -> NodeEffect {
    NodeEffect::SessionAction {
        entity,
        action: SessionAction::Packet(NodePacket::DiscoveryPacket(packet)),
    }
}

fn discovery_effects(effects: &[NodeEffect]) -> Vec<NodeEffect> {
    effects
        .iter()
        .filter(|effect| {
            matches!(
                effect,
                NodeEffect::SessionAction {
                    action: SessionAction::Packet(NodePacket::DiscoveryPacket(_)),
                    ..
                }
            )
        })
        .cloned()
        .collect()
}

#[test]
fn triangle_peer_list_discovery() {
    // A is connected to B, B is connected to C.
    let mut a = node(1);
    let mut b = node(2);
    let b_at_a = connect(&mut a, 2, "10.0.0.2:5001", true);
    let a_at_b = connect(&mut b, 1, "10.0.0.1:40001", false);
    let c_at_b = connect(&mut b, 3, "10.0.0.3:40002", false);
    assert_eq!(
        packet_from(&mut b, a_at_b, DiscoveryPacket::NotifyPublicAddress("10.0.0.1:5001".to_string())),
        vec![]
    );
    assert_eq!(
        packet_from(&mut b, c_at_b, DiscoveryPacket::NotifyPublicAddress("10.0.0.3:5001".to_string())),
        vec![]
    );

    // A asks B for peers.
    let effects = packet_from(&mut b, a_at_b, DiscoveryPacket::RequestPeers);
    let list = vec![(id(3), "10.0.0.3:5001".to_string())];
    assert_eq!(effects, vec![send(a_at_b, DiscoveryPacket::PeerList(list.clone()))]);

    // A receives the list and connects to C.
    let effects = packet_from(&mut a, b_at_a, DiscoveryPacket::PeerList(list));
    assert_eq!(
        effects,
        vec![NodeEffect::Connect {
            remote_id: id(3),
            address: "10.0.0.3:5001".to_string(),
            pub_key: None,
            persistent_state: None,
        }]
    );
}

#[test]
fn peer_list_names_at_most_twenty_peers() {
    let mut b = node(200);
    let mut entities = Vec::new();
    for n in 0..25u8 {
        let entity = connect(&mut b, n, "10.0.0.9:1", false);
        packet_from(&mut b, entity, DiscoveryPacket::NotifyPublicAddress(format!("10.0.1.{}:5001", n)));
        entities.push(entity);
    }
    let list = DiscoverySystem::collect_peer_list(&b.world, entities[2]);
    assert_eq!(list.len(), 20);
    let expected: Vec<(NodeID, Address)> = (0..21u8)
        .filter(|n| *n != 2)
        .map(|n| (id(n), format!("10.0.1.{}:5001", n)))
        .collect();
    assert_eq!(list, expected);
}

#[test]
fn peer_list_leaves_out_peers_without_public_address() {
    let mut b = node(2);
    let a_at_b = connect(&mut b, 1, "10.0.0.1:40001", false);
    let _c_at_b = connect(&mut b, 3, "10.0.0.3:40002", false);
    let effects = packet_from(&mut b, a_at_b, DiscoveryPacket::RequestPeers);
    assert_eq!(effects, vec![send(a_at_b, DiscoveryPacket::PeerList(vec![]))]);
}

#[test]
fn known_peers_are_not_connected_to_again() {
    let mut a = node(1);
    let b_at_a = connect(&mut a, 2, "10.0.0.2:5001", true);
    let list = vec![
        (id(2), "10.0.0.2:5001".to_string()),
        (id(4), "10.0.0.4:5001".to_string()),
        (id(5), "10.0.0.5:5001".to_string()),
    ];
    let effects = packet_from(&mut a, b_at_a, DiscoveryPacket::PeerList(list));
    assert_eq!(
        effects,
        vec![
            NodeEffect::Connect {
                remote_id: id(4),
                address: "10.0.0.4:5001".to_string(),
                pub_key: None,
                persistent_state: None,
            },
            NodeEffect::Connect {
                remote_id: id(5),
                address: "10.0.0.5:5001".to_string(),
                pub_key: None,
                persistent_state: None,
            },
        ]
    );
    assert_eq!(a.world.remotes.len(), 1);
}

#[test]
fn public_address_is_recorded_unless_empty() {
    let mut b = node(2);
    let a_at_b = connect(&mut b, 1, "10.0.0.1:40001", false);
    packet_from(&mut b, a_at_b, DiscoveryPacket::NotifyPublicAddress(String::new()));
    assert_eq!(b.world.remotes[0].public_address, None);
    packet_from(&mut b, a_at_b, DiscoveryPacket::NotifyPublicAddress("10.0.0.1:5001".to_string()));
    assert_eq!(b.world.remotes[0].public_address, Some("10.0.0.1:5001".to_string()));
}

#[test]
fn seen_address_is_reported_on_request() {
    let mut b = node(2);
    let a_at_b = connect(&mut b, 1, "10.0.0.1:40001", false);
    let effects = packet_from(&mut b, a_at_b, DiscoveryPacket::RequestSeenAddress);
    assert_eq!(
        effects,
        vec![send(a_at_b, DiscoveryPacket::NotifySeenAddress("10.0.0.1:40001".to_string()))]
    );
}

#[test]
fn packet_of_unknown_entity_is_ignored() {
    let mut b = node(2);
    let before = b.clone();
    let effects = packet_from(&mut b, Entity { index: 5 }, DiscoveryPacket::RequestPeers);
    assert_eq!(effects, vec![]);
    let effects = packet_from(
        &mut b,
        Entity { index: 0 },
        DiscoveryPacket::NotifySeenAddress("1.1.1.1:1".to_string()),
    );
    assert_eq!(effects, vec![]);
    assert_eq!(b, before);
}

#[test]
fn want_peer_leads_to_a_connection_unless_known() {
    let mut a = node(1);
    let b_at_a = connect(&mut a, 2, "10.0.0.2:5001", true);
    let hint = DiscoveryPacket::WantPeer {
        requester_id: id(7),
        requester_addr: "10.0.0.7:5001".to_string(),
        request_id: 99,
    };
    assert_eq!(
        packet_from(&mut a, b_at_a, hint),
        vec![NodeEffect::Connect {
            remote_id: id(7),
            address: "10.0.0.7:5001".to_string(),
            pub_key: None,
            persistent_state: None,
        }]
    );
    let hint = DiscoveryPacket::WantPeer {
        requester_id: id(2),
        requester_addr: "10.0.0.2:5001".to_string(),
        request_id: 99,
    };
    assert_eq!(packet_from(&mut a, b_at_a, hint), vec![]);
    assert_eq!(
        packet_from(&mut a, b_at_a, DiscoveryPacket::PeersNotified { number: 3, request_id: 99 }),
        vec![]
    );
}

#[test]
fn peers_are_notified_where_the_node_is_set_to() {
    let mut b = node(2);
    let a_at_b = connect(&mut b, 1, "10.0.0.1:40001", false);
    let c_at_b = connect(&mut b, 3, "10.0.0.3:40002", false);
    let d_at_b = connect(&mut b, 4, "10.0.0.4:40003", false);
    b.handle_session_closed(d_at_b);
    b.world.notify_peers = true;
    let effects = DiscoverySystem::notify_peers(&b.world, a_at_b, 77);
    assert_eq!(
        effects,
        vec![
            send(
                c_at_b,
                DiscoveryPacket::WantPeer {
                    requester_id: id(1),
                    requester_addr: "10.0.0.1:40001".to_string(),
                    request_id: 77,
                }
            ),
            send(a_at_b, DiscoveryPacket::PeersNotified { number: 1, request_id: 77 }),
        ]
    );
    let effects = packet_from(&mut b, a_at_b, DiscoveryPacket::RequestPeers);
    assert_eq!(effects.len(), 2);
    match (&effects[0], &effects[1]) {
        (
            NodeEffect::SessionAction {
                entity: hinted,
                action:
                    SessionAction::Packet(NodePacket::DiscoveryPacket(DiscoveryPacket::WantPeer {
                        requester_id,
                        requester_addr,
                        request_id: hint_id,
                    })),
            },
            NodeEffect::SessionAction {
                entity: answered,
                action:
                    SessionAction::Packet(NodePacket::DiscoveryPacket(DiscoveryPacket::PeersNotified {
                        number,
                        request_id: answer_id,
                    })),
            },
        ) => {
            assert_eq!(*hinted, c_at_b);
            assert_eq!(*answered, a_at_b);
            assert_eq!(*requester_id, id(1));
            assert_eq!(requester_addr, "10.0.0.1:40001");
            assert_eq!(*number, 1);
            assert_eq!(hint_id, answer_id);
        }
        other => panic!("unexpected {:?}", other),
    }
}

#[test]
fn at_most_twenty_peers_are_notified() {
    let mut b = node(200);
    for n in 0..30u8 {
        connect(&mut b, n, "10.0.0.9:1", false);
    }
    let effects = DiscoverySystem::notify_peers(&b.world, Entity { index: 0 }, 5);
    assert_eq!(effects.len(), 21);
    assert_eq!(
        effects[20],
        send(Entity { index: 0 }, DiscoveryPacket::PeersNotified { number: 20, request_id: 5 })
    );
}

#[test]
fn initiator_learns_its_public_address() {
    let mut a = node(1);
    let b_at_a = connect(&mut a, 2, "10.0.0.2:5001", true);
    assert!(a.world.remotes[0].conn_receiver);

    // Nothing is known yet: A asks B where B sees it.
    let outcome = a.run_schedule::<PortNet>(0);
    assert_eq!(
        discovery_effects(&outcome.effects),
        vec![
            send(b_at_a, DiscoveryPacket::RequestPeers),
            send(b_at_a, DiscoveryPacket::RequestSeenAddress),
        ]
    );
    assert_eq!(discovery_effects(&a.run_schedule::<PortNet>(1).effects), vec![]);

    // B answers, and A tells B its public address.
    packet_from(&mut a, b_at_a, DiscoveryPacket::NotifySeenAddress("93.184.216.34:40123".to_string()));
    let outcome = a.run_schedule::<PortNet>(2);
    assert_eq!(
        discovery_effects(&outcome.effects),
        vec![send(b_at_a, DiscoveryPacket::NotifyPublicAddress("93.184.216.34:5001".to_string()))]
    );
    assert_eq!(a.world.known_pub_addr, Some("93.184.216.34:5001".to_string()));
    assert!(!a.world.remotes[0].conn_receiver);
    assert_eq!(discovery_effects(&a.run_schedule::<PortNet>(3).effects), vec![]);

    // The next remote that A connects to is told at once.
    let c_at_a = connect(&mut a, 3, "10.0.0.3:5001", true);
    let outcome = a.run_schedule::<PortNet>(4);
    assert_eq!(
        discovery_effects(&outcome.effects),
        vec![
            send(c_at_a, DiscoveryPacket::RequestPeers),
            send(c_at_a, DiscoveryPacket::NotifyPublicAddress("93.184.216.34:5001".to_string())),
        ]
    );

    // A contradicting observation does not change the address.
    packet_from(&mut a, c_at_a, DiscoveryPacket::NotifySeenAddress("192.168.1.7:40999".to_string()));
    let outcome = a.run_schedule::<PortNet>(5);
    assert_eq!(
        discovery_effects(&outcome.effects),
        vec![send(c_at_a, DiscoveryPacket::NotifyPublicAddress("93.184.216.34:5001".to_string()))]
    );
    assert_eq!(a.world.known_pub_addr, Some("93.184.216.34:5001".to_string()));
}

#[test]
fn receiver_of_a_connection_owes_no_address() {
    let mut b = node(2);
    let a_at_b = connect(&mut b, 1, "10.0.0.1:40001", false);
    let outcome = b.run_schedule::<PortNet>(0);
    assert_eq!(
        discovery_effects(&outcome.effects),
        vec![send(a_at_b, DiscoveryPacket::RequestPeers)]
    );
}

#[test]
fn transport_without_prediction_leaves_address_unknown() {
    let mut a = node(1);
    let b_at_a = connect(&mut a, 2, "10.0.0.2:5001", true);
    packet_from(&mut a, b_at_a, DiscoveryPacket::NotifySeenAddress("93.184.216.34:40123".to_string()));
    let outcome = a.run_schedule::<SilentNet>(0);
    assert_eq!(
        discovery_effects(&outcome.effects),
        vec![send(b_at_a, DiscoveryPacket::RequestPeers)]
    );
    assert_eq!(a.world.known_pub_addr, None);
    assert!(a.world.remotes[0].conn_receiver);
}

#[test]
fn first_prediction_is_kept() {
    let mut known: Option<Address> = None;
    assert_eq!(DiscoverySystem::resolve_public_address(&mut known, None), None);
    assert_eq!(DiscoverySystem::resolve_public_address(&mut known, Some(String::new())), None);
    assert_eq!(
        DiscoverySystem::resolve_public_address(&mut known, Some("1.2.3.4:5".to_string())),
        Some("1.2.3.4:5".to_string())
    );
    assert_eq!(
        DiscoverySystem::resolve_public_address(&mut known, Some("9.9.9.9:9".to_string())),
        Some("1.2.3.4:5".to_string())
    );
    assert_eq!(known, Some("1.2.3.4:5".to_string()));
}

struct CountingNet;

static ASKED: std::sync::atomic::AtomicUsize = std::sync::atomic::AtomicUsize::new(0);

impl Network for CountingNet {
    fn predict_public_addresses(addr: &Address, config: &ListenerConfig) -> Vec<Address> {
        ASKED.fetch_add(1, std::sync::atomic::Ordering::SeqCst);
        assert_eq!(config.listen_addrs, vec!["0.0.0.0:5001".to_string()]);
        vec![format!("{}/predicted", addr), "unused".to_string()]
    }
}

#[test]
fn transport_is_asked_for_every_waiting_remote_that_was_seen() {
    let mut a = node(1);
    let b_at_a = connect(&mut a, 2, "10.0.0.2:5001", true);
    let c_at_a = connect(&mut a, 3, "10.0.0.3:5001", true);
    let _d_at_a = connect(&mut a, 4, "10.0.0.4:5001", true);
    packet_from(&mut a, b_at_a, DiscoveryPacket::NotifySeenAddress("198.51.100.7:40001".to_string()));
    packet_from(&mut a, c_at_a, DiscoveryPacket::NotifySeenAddress("198.51.100.9:40002".to_string()));
    let outcome = a.run_schedule::<CountingNet>(0);
    assert_eq!(ASKED.load(std::sync::atomic::Ordering::SeqCst), 2);
    assert_eq!(a.world.known_pub_addr, Some("198.51.100.7:40001/predicted".to_string()));
    let told: Vec<NodeEffect> = discovery_effects(&outcome.effects)
        .into_iter()
        .filter(|effect| {
            matches!(
                effect,
                NodeEffect::SessionAction {
                    action: SessionAction::Packet(NodePacket::DiscoveryPacket(
                        DiscoveryPacket::NotifyPublicAddress(_)
                    )),
                    ..
                }
            )
        })
        .collect();
    assert_eq!(told.len(), 3);
    a.run_schedule::<CountingNet>(1);
    assert_eq!(ASKED.load(std::sync::atomic::Ordering::SeqCst), 2);
}
