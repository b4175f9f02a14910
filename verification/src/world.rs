//! The node's store: one record per known remote, and the node's own state.

use crate::coordinates::Coordinates;
use crate::coordinates::NetworkCoord;
use crate::latency_metrics::LatencyMetrics;
use crate::latency_metrics::MetricsModel;
use crate::net::Address;
use crate::net::EncryptionKeys;
use crate::net::Entity;
use crate::net::ListenerConfig;
use crate::net::NodeID;
use crate::packet::NodePacket;
use crate::packet::TraversalPacket;
use crate::session::SessionAction;
use crate::session::SessionInfo;
use vstd::prelude::*;

verus! {

/// How much a remote's measurement counts in one coordinate update, as a
/// fraction. A zero denominator stands for a weight of zero.
#[derive(Clone, Copy, Debug, PartialEq, Eq, Structural)]
pub struct CoordinateWeight {
    pub numerator: u64,
    pub denominator: u128,
}

/// What the node knows of one remote. A field that is `None` or `false`
/// means that this facet does not apply yet.
#[derive(Clone, Debug, PartialEq, Eq)]
pub struct Remote {
    /// Identity of the remote; it never changes.
    pub id: NodeID,
    /// Set on every connection.
    pub session_info: Option<SessionInfo>,
    /// Whether a session worker runs for this remote.
    pub session: bool,
    /// Whether the session was established since the systems last ran.
    pub session_added: bool,
    pub latency_metrics: Option<LatencyMetrics>,
    /// The coordinates that the remote reported.
    pub coordinates: Option<Coordinates>,
    /// The coordinates of this node that the remote was last told over its
    /// current session.
    pub told_coordinates: Option<Coordinates>,
    pub weight: CoordinateWeight,
    /// Where third parties can reach the remote.
    pub public_address: Option<Address>,
    /// Where the remote sees us.
    pub seen_addr: Option<Address>,
    /// Whether the local node opened the connection and still owes the
    /// remote its public address.
    pub conn_receiver: bool,
    /// Whether the connection was opened, or the address we are seen at
    /// learned, since the systems last ran.
    pub address_pending: bool,
}

/// The mathematical content of a `Remote`.
pub struct RemoteModel {
    pub id: NodeID,
    pub session_info: Option<SessionInfo>,
    pub session: bool,
    pub session_added: bool,
    pub latency_metrics: Option<MetricsModel>,
    pub coordinates: Option<Coordinates>,
    pub told_coordinates: Option<Coordinates>,
    pub weight: CoordinateWeight,
    pub public_address: Option<Address>,
    pub seen_addr: Option<Address>,
    pub conn_receiver: bool,
    pub address_pending: bool,
}

impl RemoteModel {
    pub open spec fn well_formed(self) -> bool {
        &&& self.latency_metrics matches Some(metrics) ==> metrics.well_formed()
        &&& self.session ==> self.session_info is Some
        &&& self.session_info matches Some(info) ==> info.net_address@.len() > 0
        &&& self.public_address matches Some(addr) ==> addr@.len() > 0
        &&& self.seen_addr matches Some(addr) ==> addr@.len() > 0
        &&& self.coordinates matches Some(coords) ==> coords.finite()
        &&& self.weight.numerator <= self.weight.denominator
    }

    /// A remote of which only the identity is known.
    pub open spec fn unknown(id: NodeID) -> RemoteModel {
        RemoteModel {
            id,
            session_info: None,
            session: false,
            session_added: false,
            latency_metrics: None,
            coordinates: None,
            told_coordinates: None,
            weight: CoordinateWeight { numerator: 0, denominator: 0 },
            public_address: None,
            seen_addr: None,
            conn_receiver: false,
            address_pending: false,
        }
    }
}

impl View for Remote {
    type V = RemoteModel;

    open spec fn view(&self) -> RemoteModel {
        RemoteModel {
            id: self.id,
            session_info: self.session_info,
            session: self.session,
            session_added: self.session_added,
            latency_metrics: match self.latency_metrics {
                Some(metrics) => Some(metrics@),
                None => None,
            },
            coordinates: self.coordinates,
            told_coordinates: self.told_coordinates,
            weight: self.weight,
            public_address: self.public_address,
            seen_addr: self.seen_addr,
            conn_receiver: self.conn_receiver,
            address_pending: self.address_pending,
        }
    }
}

impl Remote {
    /// A remote of which only the identity is known.
    pub fn new(id: NodeID) -> (remote: Self)
        ensures
            remote@ == RemoteModel::unknown(id),
    {
        Remote {
            id,
            session_info: None,
            session: false,
            session_added: false,
            latency_metrics: None,
            coordinates: None,
            told_coordinates: None,
            weight: CoordinateWeight { numerator: 0, denominator: 0 },
            public_address: None,
            seen_addr: None,
            conn_receiver: false,
            address_pending: false,
        }
    }
}

/// The identity and keys of the local node, and where it listens.
#[derive(Clone, Debug, PartialEq, Eq)]
pub struct NodeConfig {
    pub keys: EncryptionKeys,
    pub node_id: NodeID,
    pub listener_config: ListenerConfig,
}

/// A peer that a packet may be passed on to.
#[derive(Clone, Copy, Debug, PartialEq, Eq)]
pub struct RouteCandidate {
    pub entity: Entity,
    /// The outgoing coordinate that the peer reported.
    pub out_coord: NetworkCoord,
}

/// What the node tells the program around it.
#[derive(Clone, Debug, PartialEq, Eq)]
pub enum NodeEvent {
    /// A connection to the remote at this address was established.
    NewConnection(NodeID, Address),
    /// The node's identity, listener configuration and coordinates, and
    /// every remote it knows.
    Info(NodeID, ListenerConfig, Coordinates, Vec<(NodeID, Entity)>),
    /// A remote's identity, latency metrics and coordinates.
    RemoteInfo(Entity, NodeID, LatencyMetrics, Option<Coordinates>),
}

/// What the node asks the program around it to do.
#[derive(Clone, Debug, PartialEq, Eq)]
pub enum NodeEffect {
    /// Hand the action to the session of the remote.
    SessionAction { entity: Entity, action: SessionAction },
    /// Ask the transport for a connection.
    Connect {
        remote_id: NodeID,
        address: Address,
        pub_key: Option<Vec<u8>>,
        persistent_state: Option<Vec<u8>>,
    },
    /// Emit the event.
    Event(NodeEvent),
    /// The traversal packet, which came in from `entity`, is for this node:
    /// open it and feed the packet inside back as a packet from `entity`.
    Deliver { entity: Entity, packet: TraversalPacket },
    /// Score the candidates against the packet's destination and pass the
    /// packet on to the one that the router then chooses.
    Route { packet: TraversalPacket, candidates: Vec<RouteCandidate> },
    /// Score the candidates against the coordinate; the router then chooses
    /// the peer nearest to it.
    FindRouter { destination: NetworkCoord, candidates: Vec<RouteCandidate> },
}

/// Sends `packet` to the session of `entity`.
pub open spec fn send_packet(entity: Entity, packet: NodePacket) -> NodeEffect {
    NodeEffect::SessionAction { entity, action: SessionAction::Packet(packet) }
}

/// The mathematical content of a `World`.
pub struct WorldModel {
    pub node_id: NodeID,
    pub keys: EncryptionKeys,
    pub listener_config: ListenerConfig,
    pub remotes: Seq<RemoteModel>,
    pub coordinates: Coordinates,
    pub known_pub_addr: Option<Address>,
    pub metrics_changed: bool,
    pub coordinates_changed: bool,
    pub should_update: bool,
    pub iteration: u64,
    pub notify_peers: bool,
}

impl WorldModel {
    pub open spec fn well_formed(self) -> bool {
        &&& forall|i: int, j: int|
            0 <= i < j < self.remotes.len() ==> (#[trigger] self.remotes[i]).id != (
            #[trigger] self.remotes[j]).id
        &&& forall|i: int| 0 <= i < self.remotes.len() ==> (#[trigger] self.remotes[i]).well_formed()
        &&& self.known_pub_addr matches Some(addr) ==> addr@.len() > 0
        &&& self.coordinates.finite()
    }

    /// Whether `entity` is the handle of a remote.
    pub open spec fn contains(self, entity: Entity) -> bool {
        entity.index < self.remotes.len()
    }

    /// Whether a remote with this identity is known.
    pub open spec fn knows(self, id: NodeID) -> bool {
        exists|i: int| 0 <= i < self.remotes.len() && (#[trigger] self.remotes[i]).id == id
    }

    /// The handle of the remote with this identity.
    pub open spec fn entity_of(self, id: NodeID) -> Option<Entity> {
        if self.knows(id) {
            Some(
                Entity {
                    index: (choose|i: int|
                        0 <= i < self.remotes.len() && (#[trigger] self.remotes[i]).id
                            == id) as usize,
                },
            )
        } else {
            None
        }
    }

    /// The world with the record of `entity` replaced.
    pub open spec fn with_remote(self, entity: Entity, remote: RemoteModel) -> WorldModel {
        WorldModel { remotes: self.remotes.update(entity.index as int, remote), ..self }
    }
}

/// The store of the node.
#[derive(Clone, Debug, PartialEq, Eq)]
pub struct World {
    pub config: NodeConfig,
    /// The remotes; the handle of a remote is its position.
    pub remotes: Vec<Remote>,
    /// The coordinates of the local node.
    pub coordinates: Coordinates,
    /// The public address of the local node, once learned.
    pub known_pub_addr: Option<Address>,
    /// Whether a latency measurement arrived since the last coordinate update.
    pub metrics_changed: bool,
    /// Whether a remote reported coordinates since the last coordinate update.
    pub coordinates_changed: bool,
    /// Whether a coordinate update is due.
    pub should_update: bool,
    /// The number of coordinate updates made so far.
    pub iteration: u64,
    /// Whether a request for peers is answered by telling peers of the
    /// requester, rather than with a list of peers.
    pub notify_peers: bool,
}

impl View for World {
    type V = WorldModel;

    open spec fn view(&self) -> WorldModel {
        WorldModel {
            node_id: self.config.node_id,
            keys: self.config.keys,
            listener_config: self.config.listener_config,
            remotes: Seq::new(self.remotes@.len(), |i: int| self.remotes@[i]@),
            coordinates: self.coordinates,
            known_pub_addr: self.known_pub_addr,
            metrics_changed: self.metrics_changed,
            coordinates_changed: self.coordinates_changed,
            should_update: self.should_update,
            iteration: self.iteration,
            notify_peers: self.notify_peers,
        }
    }
}

impl World {
    pub open spec fn well_formed(&self) -> bool {
        self@.well_formed()
    }

    /// A store without remotes.
    pub fn new(config: NodeConfig, coordinates: Coordinates) -> (world: Self)
        requires
            coordinates.finite(),
        ensures
            world.well_formed(),
            world@.remotes.len() == 0,
            world@.node_id == config.node_id,
            world@.listener_config == config.listener_config,
            world@.coordinates == coordinates,
            world@.known_pub_addr.is_none(),
            !world@.metrics_changed,
            !world@.coordinates_changed,
            !world@.should_update,
            world@.iteration == 0,
            !world@.notify_peers,
            world.config == config,
    {
        World {
            config,
            remotes: Vec::new(),
            coordinates,
            known_pub_addr: None,
            metrics_changed: false,
            coordinates_changed: false,
            should_update: false,
            iteration: 0,
            notify_peers: false,
        }
    }

    /// Looks up the handle of the remote with this identity.
    pub fn find_entity(&self, id: &NodeID) -> (found: Option<Entity>)
        requires
            self.well_formed(),
        ensures
            found == self@.entity_of(*id),
            found matches Some(entity) ==> self@.contains(entity) && self@.remotes[entity.index as int].id
                == *id,
            found.is_none() ==> !self@.knows(*id),
    {
        let mut i: usize = 0;
        while i < self.remotes.len()
            invariant
                self.well_formed(),
                i <= self.remotes@.len(),
                forall|j: int| 0 <= j < i ==> (#[trigger] self@.remotes[j]).id != *id,
            decreases self.remotes@.len() - i,
        {
            if self.remotes[i].id.same(id) {
                proof {
                    lemma_entity_of(self@, *id, i as int);
                }
                return Some(Entity { index: i });
            }
            i += 1;
        }
        None
    }

    /// Whether `entity` is the handle of a remote.
    pub fn contains(&self, entity: Entity) -> (known: bool)
        ensures
            known == self@.contains(entity),
    {
        entity.index < self.remotes.len()
    }

    /// Adds a remote of which only the identity is known.
    pub fn spawn(&mut self, id: NodeID) -> (entity: Entity)
        requires
            old(self).well_formed(),
            !old(self)@.knows(id),
        ensures
            final(self).well_formed(),
            entity.index == old(self)@.remotes.len(),
            final(self)@ == (WorldModel {
                remotes: old(self)@.remotes.push(RemoteModel::unknown(id)),
                ..old(self)@
            }),
            final(self).config == old(self).config,
    {
        let index: usize = self.remotes.len();
        self.remotes.push(Remote::new(id));
        assert(self@.remotes =~= old(self)@.remotes.push(RemoteModel::unknown(id)));
        assert forall|i: int, j: int| 0 <= i < j < self@.remotes.len() implies (
        #[trigger] self@.remotes[i]).id != (#[trigger] self@.remotes[j]).id by {
            if j == index {
                assert(old(self)@.remotes[i].id != id);
            } else {
                assert(old(self)@.remotes[i].id != old(self)@.remotes[j].id);
            }
        }
        assert forall|i: int| 0 <= i < self@.remotes.len() implies (
        #[trigger] self@.remotes[i]).well_formed() by {
            if i < index {
                assert(old(self)@.remotes[i].well_formed());
            }
        }
        Entity { index }
    }
}

/// In a well-formed world an identity belongs to at most one remote, so the
/// remote found under an identity is the one that the world maps it to.
pub proof fn lemma_entity_of(world: WorldModel, id: NodeID, index: int)
    requires
        world.well_formed(),
        0 <= index < world.remotes.len(),
        world.remotes[index].id == id,
        world.remotes.len() <= usize::MAX,
    ensures
        world.entity_of(id) == Some(Entity { index: index as usize }),
{
    let chosen = choose|i: int| 0 <= i < world.remotes.len() && (#[trigger] world.remotes[i]).id == id;
    if chosen < index {
        assert(world.remotes[chosen].id != world.remotes[index].id);
    } else if index < chosen {
        assert(world.remotes[index].id != world.remotes[chosen].id);
    }
}

/// Identities and handles correspond one to one: two handles of one world
/// whose remotes have the same identity are the same handle.
pub proof fn lemma_identity_is_injective(world: WorldModel, a: Entity, b: Entity)
    requires
        world.well_formed(),
        world.contains(a),
        world.contains(b),
        world.remotes[a.index as int].id == world.remotes[b.index as int].id,
    ensures
        a == b,
{
    if a.index < b.index {
        assert(world.remotes[a.index as int].id != world.remotes[b.index as int].id);
    } else if b.index < a.index {
        assert(world.remotes[b.index as int].id != world.remotes[a.index as int].id);
    }
}

/// A remote with a live session has a known address: the address of its
/// session, which is not empty.
pub proof fn lemma_live_remote_has_address(world: WorldModel, entity: Entity)
    requires
        world.well_formed(),
        world.contains(entity),
        world.remotes[entity.index as int].session,
    ensures
        ({
            let remote = world.remotes[entity.index as int];
            &&& remote.session_info is Some
            &&& remote.session_info->Some_0.net_address@.len() > 0 || (remote.public_address is Some
                && remote.public_address->Some_0@.len() > 0)
        }),
{
    assert(world.remotes[entity.index as int].well_formed());
}

/// A change that keeps every remote well-formed and under its identity
/// keeps the world well-formed.
pub proof fn lemma_remotes_stay_well_formed(before: WorldModel, after: WorldModel)
    requires
        before.well_formed(),
        after.remotes.len() == before.remotes.len(),
        forall|i: int|
            0 <= i < before.remotes.len() ==> (#[trigger] after.remotes[i]).id == before.remotes[i].id,
        forall|i: int|
            0 <= i < before.remotes.len() && before.remotes[i].well_formed() ==> (
            #[trigger] after.remotes[i]).well_formed(),
        after.known_pub_addr matches Some(addr) ==> addr@.len() > 0,
        after.coordinates.finite(),
    ensures
        after.well_formed(),
{
    assert forall|i: int| 0 <= i < after.remotes.len() implies (
    #[trigger] after.remotes[i]).well_formed() by {
        assert(before.remotes[i].well_formed());
    }
    assert forall|i: int, j: int| 0 <= i < j < after.remotes.len() implies (
    #[trigger] after.remotes[i]).id != (#[trigger] after.remotes[j]).id by {
        assert(before.remotes[i].id != before.remotes[j].id);
    }
}

/// Replacing the record of a remote by a well-formed one of the same
/// identity keeps the world well-formed.
pub proof fn lemma_update_keeps_well_formed(world: WorldModel, entity: Entity, remote: RemoteModel)
    requires
        world.well_formed(),
        world.contains(entity),
        remote.well_formed(),
        remote.id == world.remotes[entity.index as int].id,
    ensures
        world.with_remote(entity, remote).well_formed(),
{
    let updated = world.with_remote(entity, remote);
    assert forall|i: int, j: int| 0 <= i < j < updated.remotes.len() implies (
    #[trigger] updated.remotes[i]).id != (#[trigger] updated.remotes[j]).id by {
        assert(world.remotes[i].id != world.remotes[j].id);
    }
    assert forall|i: int| 0 <= i < updated.remotes.len() implies (
    #[trigger] updated.remotes[i]).well_formed() by {
        if i != entity.index {
            assert(world.remotes[i].well_formed());
        }
    }
}

} // verus!
