use dither_node::coordinates::Coordinates;
use dither_node::coordinates::NetworkCoord;
use dither_node::nc_system::CoordinateProblem;
use dither_node::nc_system::NCSystem;
use dither_node::nc_system::SolverOutcome;
use dither_node::net::Address;
use dither_node::net::Connection;
use dither_node::net::EncryptionKeys;
use dither_node::net::Entity;
use dither_node::net::ListenerConfig;
use dither_node::net::Network;
use dither_node::net::NodeID;
use dither_node::node::Node;
use dither_node::packet::NCSystemPacket;
use dither_node::packet::NodePacket;
use dither_node::session::EntitySessionEvent;
use dither_node::session::SessionAction;
use dither_node::session::SessionEvent;
use dither_node::world::CoordinateWeight;
use dither_node::world::NodeConfig;
use dither_node::world::NodeEffect;

struct NoNet;

impl Network for NoNet {
    fn predict_public_addresses(_addr: &Address, _config: &ListenerConfig) -> Vec<Address> {
        Vec::new()
    }
}

fn id(n: u8) -> NodeID {
    NodeID { hash: [n; 32] }
}

fn coords(out: f64, inward: f64) -> Coordinates {
    Coordinates {
        out_coord: NetworkCoord { bits: [out.to_bits(); 5] },
        in_coord: NetworkCoord { bits: [inward.to_bits(); 5] },
    }
}

fn node(n: u8) -> Node {
    let config = NodeConfig {
        keys: EncryptionKeys { private_key: vec![n], public_key: vec![n] },
        node_id: id(n),
        listener_config: ListenerConfig { listen_addrs: vec!["0.0.0.0:5001".to_string()] },
    };
    Node::new(config, coords(0.25, 0.5)).unwrap()
}

fn connect(node: &mut Node, remote: u8) -> Entity {
    let connection = Connection {
        incoming_address: format!("10.0.0.{}:5001", remote),
        remote_pub_key: vec![remote],
        persistent_state: vec![],
        requested: false,
    };
    node.handle_connection(connection, id(remote)).0.unwrap()
}

fn nc_packet(node: &mut Node, entity: Entity, packet: NCSystemPacket) -> Vec<NodeEffect> {
    node.handle_session_events(
        EntitySessionEvent { entity, event: SessionEvent::Packet(NodePacket::NCSystemPacket(packet)) },
        0,
    )
}

fn measure(node: &mut Node, entity: Entity, latency: u64, now: u64) {
    let effects = node.handle_session_events(
        EntitySessionEvent { entity, event: SessionEvent::LatencyMeasurement(latency) },
        now,
    );
    assert_eq!(effects, vec![]);
}

fn notify(entity: Entity, coordinates: Coordinates) -> NodeEffect {
    NodeEffect::SessionAction {
        entity,
        action: SessionAction::Packet(NodePacket::NCSystemPacket(
            NCSystemPacket::NotifyNetworkCoordinates(coordinates),
        )),
    }
}

#[test]
fn coordinates_are_reported_on_request() {
    let mut a = node(1);
    let b = connect(&mut a, 2);
    assert_eq!(
        nc_packet(&mut a, b, NCSystemPacket::RequestNetworkCoordinates),
        vec![notify(b, coords(0.25, 0.5))]
    );
}

#[test]
fn reported_coordinates_are_recorded() {
    let mut a = node(1);
    let b = connect(&mut a, 2);
    assert_eq!(
        nc_packet(&mut a, b, NCSystemPacket::NotifyNetworkCoordinates(coords(1.5, -2.0))),
        vec![]
    );
    assert_eq!(a.world.remotes[0].coordinates, Some(coords(1.5, -2.0)));
    assert!(a.world.coordinates_changed);
}

#[test]
fn coordinates_that_are_not_finite_are_ignored() {
    let mut a = node(1);
    let b = connect(&mut a, 2);
    for bad in [f64::NAN, f64::INFINITY, f64::NEG_INFINITY] {
        nc_packet(&mut a, b, NCSystemPacket::NotifyNetworkCoordinates(coords(1.0, bad)));
        nc_packet(&mut a, b, NCSystemPacket::NotifyNetworkCoordinates(coords(bad, 1.0)));
    }
    assert_eq!(a.world.remotes[0].coordinates, None);
    assert!(!a.world.coordinates_changed);
}

#[test]
fn new_session_is_told_our_coordinates() {
    let mut a = node(1);
    let b = connect(&mut a, 2);
    assert_eq!(a.world.remotes[0].told_coordinates, None);
    assert_eq!(NCSystem::setup_session(&mut a.world), vec![notify(b, coords(0.25, 0.5))]);
    assert_eq!(a.world.remotes[0].told_coordinates, Some(coords(0.25, 0.5)));
    assert_eq!(NCSystem::setup_session(&mut a.world), vec![]);
    a.run_schedule::<NoNet>(0);
    assert_eq!(NCSystem::setup_session(&mut a.world), vec![]);
    assert_eq!(NCSystem::push_coordinates(&mut a.world), vec![]);
}

#[test]
fn push_tells_nobody_twice() {
    let mut a = node(1);
    let b = connect(&mut a, 2);
    let c = connect(&mut a, 3);
    let d = connect(&mut a, 4);
    a.handle_session_closed(d);
    let own = coords(0.25, 0.5);
    assert_eq!(NCSystem::push_coordinates(&mut a.world), vec![notify(b, own), notify(c, own)]);
    assert_eq!(NCSystem::push_coordinates(&mut a.world), vec![]);
    assert_eq!(a.world.remotes[0].told_coordinates, Some(own));
    assert_eq!(a.world.remotes[2].told_coordinates, None);
}

#[test]
fn peer_told_on_request_is_passed_over_by_the_push() {
    let mut a = node(1);
    let b = connect(&mut a, 2);
    let c = connect(&mut a, 3);
    let own = coords(0.25, 0.5);
    assert_eq!(
        nc_packet(&mut a, b, NCSystemPacket::RequestNetworkCoordinates),
        vec![notify(b, own)]
    );
    assert_eq!(NCSystem::push_coordinates(&mut a.world), vec![notify(c, own)]);
    // A request is answered again all the same.
    assert_eq!(
        nc_packet(&mut a, b, NCSystemPacket::RequestNetworkCoordinates),
        vec![notify(b, own)]
    );
}

#[test]
fn new_session_of_a_known_remote_is_told_again() {
    let mut a = node(1);
    let b = connect(&mut a, 2);
    let own = coords(0.25, 0.5);
    assert_eq!(a.run_schedule::<NoNet>(0).effects.last(), Some(&notify(b, own)));
    a.handle_session_closed(b);
    assert_eq!(connect(&mut a, 2), b);
    assert_eq!(a.world.remotes[0].told_coordinates, None);
    assert_eq!(a.run_schedule::<NoNet>(1).effects.last(), Some(&notify(b, own)));
}

#[test]
fn update_is_due_once_metrics_and_coordinates_changed() {
    let mut a = node(1);
    let b = connect(&mut a, 2);
    assert_eq!(a.run_schedule::<NoNet>(0).problem, None);
    measure(&mut a, b, 12_000, 10);
    assert_eq!(a.run_schedule::<NoNet>(20).problem, None);
    nc_packet(&mut a, b, NCSystemPacket::NotifyNetworkCoordinates(coords(1.5, -2.0)));
    let problem = a.run_schedule::<NoNet>(30).problem;
    assert_eq!(
        problem,
        Some(CoordinateProblem {
            param: coords(0.25, 0.5),
            iteration: 0,
            remote_measurements: vec![12_000],
            remote_coords: vec![coords(1.5, -2.0)],
            remote_weights: vec![CoordinateWeight { numerator: 0, denominator: 0 }],
        })
    );
    assert!(!a.world.should_update);
    assert!(!a.world.metrics_changed);
    assert!(!a.world.coordinates_changed);
    assert_eq!(a.run_schedule::<NoNet>(40).problem, None);
}

#[test]
fn timer_makes_an_update_due() {
    let mut a = node(1);
    let b = connect(&mut a, 2);
    measure(&mut a, b, 12_000, 10);
    nc_packet(&mut a, b, NCSystemPacket::NotifyNetworkCoordinates(coords(1.5, -2.0)));
    assert!(a.run_schedule::<NoNet>(30).problem.is_some());
    assert_eq!(a.run_schedule::<NoNet>(40).problem, None);
    a.handle_timer();
    assert!(a.world.should_update);
    assert!(a.run_schedule::<NoNet>(50).problem.is_some());
}

#[test]
fn no_problem_without_a_remote_that_takes_part() {
    let mut a = node(1);
    let b = connect(&mut a, 2);
    let c = connect(&mut a, 3);
    measure(&mut a, b, 12_000, 10);
    nc_packet(&mut a, c, NCSystemPacket::NotifyNetworkCoordinates(coords(1.5, -2.0)));
    assert!(a.world.metrics_changed && a.world.coordinates_changed);
    assert_eq!(a.run_schedule::<NoNet>(30).problem, None);
    assert!(!a.world.should_update);
    a.handle_timer();
    assert_eq!(NCSystem::network_coordinate_system(&mut a.world), None);
}

#[test]
fn weights_are_freshness_over_the_sum() {
    let mut a = node(1);
    let b = connect(&mut a, 2);
    let c = connect(&mut a, 3);
    let d = connect(&mut a, 4);
    let e = connect(&mut a, 5);
    measure(&mut a, b, 10_000, 9_000_000);
    measure(&mut a, c, 20_000, 7_000_000);
    measure(&mut a, d, 30_000, 4_000_000);
    NCSystem::calculate_weights(&mut a.world, 10_000_000);
    let weight = |node: &Node, entity: Entity| node.world.remotes[entity.index].weight;
    assert_eq!(weight(&a, b), CoordinateWeight { numerator: 5_000_000, denominator: 8_000_000 });
    assert_eq!(weight(&a, c), CoordinateWeight { numerator: 3_000_000, denominator: 8_000_000 });
    assert_eq!(weight(&a, d), CoordinateWeight { numerator: 0, denominator: 8_000_000 });
    assert_eq!(weight(&a, e), CoordinateWeight { numerator: 0, denominator: 0 });
    let total: u128 = [b, c, d].iter().map(|entity| weight(&a, *entity).numerator as u128).sum();
    assert_eq!(total, weight(&a, b).denominator);
}

#[test]
fn weights_stay_where_the_sum_is_zero() {
    let mut a = node(1);
    let b = connect(&mut a, 2);
    let c = connect(&mut a, 3);
    measure(&mut a, b, 10_000, 9_000_000);
    measure(&mut a, c, 10_000, 8_000_000);
    NCSystem::calculate_weights(&mut a.world, 10_000_000);
    assert_eq!(a.world.remotes[0].weight, CoordinateWeight { numerator: 1_000_000, denominator: 1_000_000 });
    assert_eq!(a.world.remotes[1].weight, CoordinateWeight { numerator: 0, denominator: 1_000_000 });
    measure(&mut a, c, 10_000, 9_000_000);
    let before = a.clone();
    NCSystem::calculate_weights(&mut a.world, 10_000_000);
    assert_eq!(a, before);

    let mut lone = node(1);
    let b = connect(&mut lone, 2);
    measure(&mut lone, b, 10_000, 9_000_000);
    NCSystem::calculate_weights(&mut lone.world, 10_000_000);
    assert_eq!(lone.world.remotes[0].weight, CoordinateWeight { numerator: 0, denominator: 0 });
}

#[test]
fn problem_runs_over_the_remotes_that_take_part() {
    let mut a = node(1);
    let b = connect(&mut a, 2);
    let c = connect(&mut a, 3);
    let d = connect(&mut a, 4);
    measure(&mut a, b, 10_000, 9_000_000);
    measure(&mut a, b, 11_000, 9_500_000);
    measure(&mut a, c, 20_000, 7_000_000);
    measure(&mut a, d, 30_000, 4_000_000);
    nc_packet(&mut a, b, NCSystemPacket::NotifyNetworkCoordinates(coords(1.0, 2.0)));
    nc_packet(&mut a, d, NCSystemPacket::NotifyNetworkCoordinates(coords(3.0, 4.0)));
    let problem = a.run_schedule::<NoNet>(10_000_000).problem.unwrap();
    assert_eq!(problem.param, coords(0.25, 0.5));
    assert_eq!(problem.iteration, 0);
    assert_eq!(problem.remote_measurements, vec![11_000, 30_000]);
    assert_eq!(problem.remote_coords, vec![coords(1.0, 2.0), coords(3.0, 4.0)]);
    assert_eq!(
        problem.remote_weights,
        vec![
            CoordinateWeight { numerator: 5_500_000, denominator: 8_500_000 },
            CoordinateWeight { numerator: 0, denominator: 8_500_000 },
        ]
    );
}

#[test]
fn step_replaces_coordinates_and_tells_every_session() {
    let mut a = node(1);
    let b = connect(&mut a, 2);
    let c = connect(&mut a, 3);
    let d = connect(&mut a, 4);
    a.handle_session_closed(c);
    measure(&mut a, c, 12_000, 10);
    nc_packet(&mut a, c, NCSystemPacket::NotifyNetworkCoordinates(coords(1.5, -2.0)));
    let effects = a.apply_step(SolverOutcome::Stepped(coords(0.75, 0.125)));
    assert_eq!(effects, vec![notify(b, coords(0.75, 0.125)), notify(d, coords(0.75, 0.125))]);
    assert_eq!(a.coordinates(), coords(0.75, 0.125));
    assert_eq!(a.world.iteration, 1);
}

#[test]
fn step_without_change_tells_nobody() {
    let mut a = node(1);
    let b = connect(&mut a, 2);
    measure(&mut a, b, 12_000, 10);
    nc_packet(&mut a, b, NCSystemPacket::NotifyNetworkCoordinates(coords(1.5, -2.0)));
    assert_eq!(a.apply_step(SolverOutcome::Stepped(coords(0.25, 0.5))), vec![]);
    assert_eq!(a.coordinates(), coords(0.25, 0.5));
    assert_eq!(a.world.iteration, 1);
    assert_eq!(a.apply_step(SolverOutcome::Stepped(coords(0.25, 0.5))), vec![]);
    assert_eq!(a.world.iteration, 2);
}

#[test]
fn step_that_is_not_finite_is_abandoned() {
    let mut a = node(1);
    let b = connect(&mut a, 2);
    measure(&mut a, b, 12_000, 10);
    nc_packet(&mut a, b, NCSystemPacket::NotifyNetworkCoordinates(coords(1.5, -2.0)));
    let before = a.clone();
    assert_eq!(a.apply_step(SolverOutcome::Stepped(coords(f64::NAN, 0.5))), vec![]);
    assert_eq!(a.apply_step(SolverOutcome::Stepped(coords(0.5, f64::INFINITY))), vec![]);
    assert_eq!(a.apply_step(SolverOutcome::Failed), vec![]);
    assert_eq!(a, before);
}

#[test]
fn received_coordinates_are_not_echoed_in_the_same_turn() {
    let mut a = node(1);
    let b = connect(&mut a, 2);
    a.run_schedule::<NoNet>(0);
    measure(&mut a, b, 12_000, 10);
    let mut sent = nc_packet(&mut a, b, NCSystemPacket::NotifyNetworkCoordinates(coords(1.5, -2.0)));
    let outcome = a.run_schedule::<NoNet>(20);
    sent.extend(outcome.effects);
    assert!(outcome.problem.is_some());
    sent.extend(a.apply_step(SolverOutcome::Stepped(coords(0.25, 0.5))));
    let notified: Vec<&NodeEffect> = sent
        .iter()
        .filter(|effect| {
            matches!(
                effect,
                NodeEffect::SessionAction {
                    action: SessionAction::Packet(NodePacket::NCSystemPacket(_)),
                    ..
                }
            )
        })
        .collect();
    assert!(notified.is_empty());
}

#[test]
fn step_without_a_remote_that_takes_part_changes_nothing() {
    let mut a = node(1);
    let b = connect(&mut a, 2);
    let c = connect(&mut a, 3);
    measure(&mut a, b, 12_000, 10);
    nc_packet(&mut a, c, NCSystemPacket::NotifyNetworkCoordinates(coords(1.5, -2.0)));
    assert!(!NCSystem::has_participants(&a.world));
    let before = a.clone();
    assert_eq!(a.apply_step(SolverOutcome::Stepped(coords(0.75, 0.125))), vec![]);
    assert_eq!(a, before);
    measure(&mut a, c, 9_000, 20);
    assert!(NCSystem::has_participants(&a.world));
    assert_eq!(a.apply_step(SolverOutcome::Stepped(coords(0.75, 0.125))).len(), 2);
    assert_eq!(a.world.iteration, 1);
}
