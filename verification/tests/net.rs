use dither_node::coordinates::Coordinates;
use dither_node::coordinates::NetworkCoord;
use dither_node::frame::encode_frame;
use dither_node::net::address_is_valid;
use dither_node::net::Entity;
use dither_node::net::EncryptionKeys;
use dither_node::net::ListenerConfig;
use dither_node::net::NodeID;
use dither_node::session::next_frame;
use dither_node::session::SessionError;
use dither_node::world::NodeConfig;
use dither_node::world::World;

fn coord(values: [f64; 5]) -> NetworkCoord {
    NetworkCoord { bits: values.map(f64::to_bits) }
}

#[test]
fn identities_are_compared_byte_by_byte() {
    let a = NodeID { hash: [7; 32] };
    let mut b = a;
    assert!(a.same(&b));
    b.hash[31] = 8;
    assert!(!a.same(&b));
    b.hash[31] = 7;
    b.hash[0] = 0;
    assert!(!a.same(&b));
}

#[test]
fn empty_address_is_not_valid() {
    assert!(!address_is_valid(&String::new()));
    assert!(address_is_valid(&"0.0.0.0:5001".to_string()));
    assert!(address_is_valid(&" ".to_string()));
}

#[test]
fn zero_vector_is_finite_and_zero() {
    let zeros = NetworkCoord::zeros();
    assert_eq!(zeros, coord([0.0; 5]));
    assert!(zeros.is_finite());
}

#[test]
fn one_component_that_is_not_finite_spoils_the_vector() {
    assert!(coord([1.0, -2.0, 3.5, 0.0, 1.0e300]).is_finite());
    for position in 0..5 {
        for bad in [f64::NAN, f64::INFINITY, f64::NEG_INFINITY] {
            let mut values = [1.0; 5];
            values[position] = bad;
            assert!(!coord(values).is_finite());
            let good = coord([1.0; 5]);
            assert!(!Coordinates::new(coord(values), good).is_finite());
            assert!(!Coordinates::new(good, coord(values)).is_finite());
        }
    }
    assert!(Coordinates::new(coord([1.0; 5]), coord([-1.0; 5])).is_finite());
}

#[test]
fn coordinates_are_compared_bit_by_bit() {
    let a = Coordinates::new(coord([1.0, 2.0, 3.0, 4.0, 5.0]), coord([0.0; 5]));
    let b = Coordinates::new(coord([1.0, 2.0, 3.0, 4.0, 5.0]), coord([0.0; 5]));
    let c = Coordinates::new(coord([1.0, 2.0, 3.0, 4.0, 5.0]), coord([0.0, 0.0, 0.0, 0.0, -0.0]));
    assert!(a.same(&b));
    assert!(!a.same(&c));
    assert!(a.out_coord.same(&c.out_coord));
    assert!(!a.in_coord.same(&c.in_coord));
}

#[test]
fn store_hands_out_handles_in_order() {
    let config = NodeConfig {
        keys: EncryptionKeys { private_key: vec![1], public_key: vec![1] },
        node_id: NodeID { hash: [1; 32] },
        listener_config: ListenerConfig { listen_addrs: vec![] },
    };
    let own = Coordinates::new(coord([0.5; 5]), coord([0.5; 5]));
    let mut world = World::new(config, own);
    assert!(!world.contains(Entity { index: 0 }));
    assert_eq!(world.spawn(NodeID { hash: [2; 32] }), Entity { index: 0 });
    assert_eq!(world.spawn(NodeID { hash: [3; 32] }), Entity { index: 1 });
    assert!(world.contains(Entity { index: 1 }));
    assert!(!world.contains(Entity { index: 2 }));
    assert_eq!(world.find_entity(&NodeID { hash: [3; 32] }), Some(Entity { index: 1 }));
    assert_eq!(world.find_entity(&NodeID { hash: [4; 32] }), None);
    assert_eq!(world.remotes[1].session_info, None);
    assert!(!world.remotes[1].session);
}

#[test]
fn next_frame_finds_the_body() {
    let mut stream = encode_frame(&[1, 2, 3]);
    stream.extend_from_slice(&[9]);
    assert_eq!(next_frame(&stream), Ok(Some((1, 4))));
    assert_eq!(next_frame(&stream[..3]), Ok(None));
    assert_eq!(next_frame(&[]), Ok(None));
}

#[test]
fn bytes_that_are_no_frame_end_the_session() {
    assert_eq!(next_frame(&[0x80, 0x00, 1]), Err(SessionError::MalformedPacket));
    assert_eq!(next_frame(&[0xff; 11]), Err(SessionError::MalformedPacket));
}
