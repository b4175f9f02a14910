//! The node: what it does with actions, connections and session events, and
//! the systems it runs after each of them.

use crate::coordinates::Coordinates;
use crate::coordinates::NetworkCoord;
use crate::discovery;
use crate::discovery::DiscoverySystem;
use crate::latency_system;
use crate::latency_system::LatencyMetricsSystem;
use crate::nc_system;
use crate::nc_system::CoordinateProblem;
use crate::nc_system::NCSystem;
use crate::nc_system::SolverOutcome;
use crate::net::address_is_valid;
use crate::net::Address;
use crate::net::Connection;
use crate::net::Entity;
use crate::net::ListenerConfig;
use crate::net::Network;
use crate::net::NodeID;
use crate::packet::NodePacket;
use crate::ping::Timestamp;
use crate::routing;
use crate::routing::RoutingSystem;
use crate::session::EntitySessionEvent;
use crate::session::SessionAction;
use crate::session::SessionEvent;
use crate::session::SessionInfo;
use crate::world::lemma_remotes_stay_well_formed;
use crate::world::lemma_update_keeps_well_formed;
use crate::world::send_packet;
use crate::world::CoordinateWeight;
use crate::world::NodeConfig;
use crate::world::NodeEffect;
use crate::world::NodeEvent;
use crate::world::RemoteModel;
use crate::world::RouteCandidate;
use crate::world::World;
use crate::world::WorldModel;
use vstd::prelude::*;

verus! {

/// What the program around the node can ask of it.
#[derive(Clone, Debug, PartialEq, Eq)]
pub enum NodeAction {
    /// Connect to the node with this identity at this address, unless a
    /// session with it is live.
    Connect(NodeID, Address, Option<Vec<u8>>),
    /// Send the packet to the peer with this identity.
    ForwardPacket(NodeID, NodePacket),
    /// Find a peer near the coordinate.
    FindRouter(NetworkCoord),
    /// Establish a route through the named nodes.
    EstablishRoute(Vec<NodeID>),
    /// Report the node's own state.
    GetInfo,
    /// Report what is known of a remote.
    GetRemoteInfo(Entity),
}

/// What one run of the systems leads to.
#[derive(Clone, Debug, PartialEq, Eq)]
pub struct ScheduleOutcome {
    /// What the systems ask for, in the order in which they ran.
    pub effects: Vec<NodeEffect>,
    /// The problem of the coordinate fit, if an update is due and some
    /// remote takes part. Its outcome goes to `apply_step`.
    pub problem: Option<CoordinateProblem>,
}

/// A remote after a connection to it was established.
pub open spec fn connected(remote: RemoteModel, info: SessionInfo, requested: bool) -> RemoteModel {
    RemoteModel {
        session_info: Some(info),
        session: true,
        session_added: true,
        told_coordinates: None,
        weight: CoordinateWeight { numerator: 0, denominator: 0 },
        conn_receiver: remote.conn_receiver || requested,
        address_pending: remote.address_pending || requested,
        ..remote
    }
}

/// What is kept of a connection to connect again later.
pub open spec fn info_of(connection: Connection) -> SessionInfo {
    SessionInfo {
        net_address: connection.incoming_address,
        remote_pub_key: Some(connection.remote_pub_key),
        persistent_state: Some(connection.persistent_state),
    }
}

/// The world after a connection to the node `remote_id` was established. A
/// node not known before gets a record.
pub open spec fn after_connection(world: WorldModel, connection: Connection, remote_id: NodeID) -> WorldModel {
    match world.entity_of(remote_id) {
        Some(entity) => world.with_remote(
            entity,
            connected(world.remotes[entity.index as int], info_of(connection), connection.requested),
        ),
        None => WorldModel {
            remotes: world.remotes.push(
                connected(RemoteModel::unknown(remote_id), info_of(connection), connection.requested),
            ),
            ..world
        },
    }
}

/// The handle of the node `remote_id` once a connection to it was
/// established.
pub open spec fn entity_after_connection(world: WorldModel, remote_id: NodeID) -> Entity {
    match world.entity_of(remote_id) {
        Some(entity) => entity,
        None => Entity { index: world.remotes.len() as usize },
    }
}

/// The world after the session of `entity` ended: what is needed to
/// connect again, and what was measured, stays.
pub open spec fn after_session_closed(world: WorldModel, entity: Entity) -> WorldModel {
    if world.contains(entity) {
        world.with_remote(
            entity,
            RemoteModel { session: false, session_added: false, ..world.remotes[entity.index as int] },
        )
    } else {
        world
    }
}

/// The state that is passed along when the node connects again to a remote.
pub open spec fn persistent_state_of(remote: RemoteModel) -> Option<Seq<u8>> {
    match remote.session_info {
        Some(info) => match info.persistent_state {
            Some(state) => Some(state@),
            None => None,
        },
        None => None,
    }
}

/// Whether `after` and `effects` are what the action leads to.
pub open spec fn performs(
    before: WorldModel,
    after: WorldModel,
    effects: Seq<NodeEffect>,
    action: NodeAction,
) -> bool {
    match action {
        NodeAction::Connect(remote_id, address, pub_key) => match before.entity_of(remote_id) {
            Some(entity) => {
                let remote = before.remotes[entity.index as int];
                &&& after == before
                &&& if remote.session {
                    effects.len() == 0
                } else {
                    &&& effects.len() == 1
                    &&& effects[0] matches NodeEffect::Connect {
                        remote_id: to,
                        address: at,
                        pub_key: key,
                        persistent_state: state,
                    }
                    &&& to == remote_id
                    &&& at == address
                    &&& key == pub_key
                    &&& match state {
                        Some(bytes) => persistent_state_of(remote) == Some(bytes@),
                        None => persistent_state_of(remote).is_none(),
                    }
                }
            },
            None => {
                &&& after == (WorldModel {
                    remotes: before.remotes.push(RemoteModel::unknown(remote_id)),
                    ..before
                })
                &&& effects == seq![
                    NodeEffect::Connect {
                        remote_id,
                        address,
                        pub_key,
                        persistent_state: None,
                    },
                ]
            },
        },
        NodeAction::ForwardPacket(remote_id, packet) => {
            &&& after == before
            &&& effects == match before.entity_of(remote_id) {
                Some(entity) => if before.remotes[entity.index as int].session {
                    seq![send_packet(entity, packet)]
                } else {
                    Seq::<NodeEffect>::empty()
                },
                None => Seq::<NodeEffect>::empty(),
            }
        },
        NodeAction::FindRouter(destination) => {
            let candidates = routing::route_candidates(before.remotes, before.remotes.len());
            &&& after == before
            &&& if candidates.len() == 0 {
                effects.len() == 0
            } else {
                &&& effects.len() == 1
                &&& effects[0] matches NodeEffect::FindRouter { destination: toward, candidates: offered }
                &&& toward == destination
                &&& offered@ == candidates
            }
        },
        NodeAction::EstablishRoute(_) => {
            &&& after == before
            &&& effects.len() == 0
        },
        NodeAction::GetInfo => {
            &&& after == before
            &&& effects.len() == 1
            &&& effects[0] matches NodeEffect::Event(
                NodeEvent::Info(node_id, listener_config, coordinates, remotes),
            )
            &&& node_id == before.node_id
            &&& listener_config.listen_addrs@ == before.listener_config.listen_addrs@
            &&& coordinates == before.coordinates
            &&& remotes@ == Seq::new(
                before.remotes.len(),
                |i: int| (before.remotes[i].id, Entity { index: i as usize }),
            )
        },
        NodeAction::GetRemoteInfo(entity) => {
            &&& after == before
            &&& if before.contains(entity) && before.remotes[entity.index as int].latency_metrics
                is Some {
                &&& effects.len() == 1
                &&& effects[0] matches NodeEffect::Event(
                    NodeEvent::RemoteInfo(of, id, metrics, coordinates),
                )
                &&& of == entity
                &&& id == before.remotes[entity.index as int].id
                &&& Some(metrics@) == before.remotes[entity.index as int].latency_metrics
                &&& coordinates == before.remotes[entity.index as int].coordinates
            } else {
                effects.len() == 0
            }
        },
    }
}

/// Whether `after` and `effects` are what a session event at `now` leads
/// to: each packet goes to the system it belongs to, a measurement to the
/// latency metrics, a traversal packet to the router. Raw data is not the
/// node's to handle.
pub open spec fn dispatches(
    before: WorldModel,
    after: WorldModel,
    effects: Seq<NodeEffect>,
    event: EntitySessionEvent,
    now: Timestamp,
) -> bool {
    let entity = event.entity;
    match event.event {
        SessionEvent::Packet(NodePacket::DiscoveryPacket(packet)) => discovery::handles_packet(
            before,
            after,
            effects,
            entity,
            packet,
        ),
        SessionEvent::Packet(NodePacket::NCSystemPacket(packet)) => nc_system::handles_packet(
            before,
            after,
            effects,
            entity,
            packet,
        ),
        SessionEvent::Packet(NodePacket::Traversal(packet)) => {
            &&& after == before
            &&& routing::routes(before, effects, entity, packet)
        },
        SessionEvent::Traversal(packet) => {
            &&& after == before
            &&& routing::routes(before, effects, entity, packet)
        },
        SessionEvent::Packet(NodePacket::Data(_)) => {
            &&& after == before
            &&& effects.len() == 0
        },
        SessionEvent::LatencyMeasurement(latency) => {
            &&& effects.len() == 0
            &&& after == if before.contains(entity) {
                WorldModel {
                    metrics_changed: true,
                    ..before.with_remote(
                        entity,
                        latency_system::measured(before.remotes[entity.index as int], latency, now),
                    )
                }
            } else {
                before
            }
        },
    }
}

/// Whether some remote has a session.
pub open spec fn has_sessions(world: WorldModel) -> bool {
    exists|i: int| 0 <= i < world.remotes.len() && (#[trigger] world.remotes[i]).session
}

/// A remote once the systems ran: what was new to them no longer is.
pub open spec fn settled(remote: RemoteModel) -> RemoteModel {
    RemoteModel { session_added: false, address_pending: false, ..remote }
}

/// The world after the latency system ran at `now`.
pub open spec fn after_latency(world: WorldModel, now: Timestamp) -> WorldModel {
    WorldModel {
        remotes: Seq::new(
            world.remotes.len(),
            |i: int| latency_system::polled(world.remotes[i], now),
        ),
        ..world
    }
}

/// Whether a coordinate update is due in this world.
pub open spec fn update_due(world: WorldModel) -> bool {
    world.should_update || (world.metrics_changed && world.coordinates_changed)
}

/// The world in which the coordinate fit is posed, if an update is due in
/// `world` at `now`: the remotes carry their new weights.
pub open spec fn at_fit(world: WorldModel, now: Timestamp) -> WorldModel {
    WorldModel { remotes: nc_system::reweighted(world.remotes, now), should_update: true, ..world }
}

/// The world after the coordinate systems ran at `now`, short of the fit
/// itself.
pub open spec fn after_coordinate_systems(world: WorldModel, now: Timestamp) -> WorldModel {
    if update_due(world) {
        WorldModel {
            should_update: false,
            metrics_changed: false,
            coordinates_changed: false,
            ..at_fit(world, now)
        }
    } else {
        world
    }
}

/// The world with every remote settled.
pub open spec fn after_settling(world: WorldModel) -> WorldModel {
    WorldModel {
        remotes: Seq::new(world.remotes.len(), |i: int| settled(world.remotes[i])),
        ..world
    }
}

/// Whether `after`, `effects` and `problem` are what one run of the systems
/// at `now` leads to, given what the transport predicted for each remote.
///
/// The systems run in this order: latency, discovery, the coordinate
/// controller, the weights, the posing of the fit. Each prediction is what
/// the transport `Net` made of the address that the remote sees us at.
pub open spec fn schedule_runs<Net: Network>(
    before: WorldModel,
    after: WorldModel,
    effects: Seq<NodeEffect>,
    problem: Option<CoordinateProblem>,
    now: Timestamp,
    predictions: Seq<Option<Address>>,
) -> bool {
    let count = before.remotes.len();
    let measured = after_latency(before, now);
    let answered = discovery::after_answers(measured, predictions);
    let told = nc_system::after_telling(answered, true);
    &&& discovery::predicted_by::<Net>(measured, predictions)
    &&& effects == latency_system::setup_effects(before.remotes, count)
        + latency_system::notify_effects(before.remotes, now, count) + discovery::setup_effects(
        measured.remotes,
        count,
    ) + discovery::address_effects(
        measured.remotes,
        measured.known_pub_addr,
        predictions,
        count,
    ) + nc_system::coordinate_effects(answered.remotes, answered.coordinates, true, count)
    &&& after == after_settling(after_coordinate_systems(told, now))
    &&& if update_due(told) {
        match problem {
            Some(posed) => posed.poses(at_fit(told, now)) && posed.remote_coords@.len() > 0,
            None => nc_system::fit_entities(at_fit(told, now).remotes, count).len() == 0,
        }
    } else {
        problem.is_none()
    }
}

/// Copies a byte string.
fn clone_bytes(bytes: &Vec<u8>) -> (copy: Vec<u8>)
    ensures
        copy@ == bytes@,
{
    let mut copy: Vec<u8> = Vec::new();
    let mut i: usize = 0;
    while i < bytes.len()
        invariant
            i <= bytes@.len(),
            copy@ == bytes@.subrange(0, i as int),
        decreases bytes@.len() - i,
    {
        copy.push(bytes[i]);
        i += 1;
        assert(copy@ =~= bytes@.subrange(0, i as int));
    }
    assert(bytes@.subrange(0, i as int) =~= bytes@);
    copy
}

/// Copies a listener configuration.
fn clone_listener_config(config: &ListenerConfig) -> (copy: ListenerConfig)
    ensures
        copy.listen_addrs@ == config.listen_addrs@,
{
    let mut listen_addrs: Vec<Address> = Vec::new();
    let mut i: usize = 0;
    while i < config.listen_addrs.len()
        invariant
            i <= config.listen_addrs@.len(),
            listen_addrs@ == config.listen_addrs@.subrange(0, i as int),
        decreases config.listen_addrs@.len() - i,
    {
        listen_addrs.push(config.listen_addrs[i].clone());
        i += 1;
        assert(listen_addrs@ =~= config.listen_addrs@.subrange(0, i as int));
    }
    assert(config.listen_addrs@.subrange(0, i as int) =~= config.listen_addrs@);
    ListenerConfig { listen_addrs }
}

/// A node: its store, and the systems that work on it.
#[derive(Clone, Debug, PartialEq, Eq)]
pub struct Node {
    pub world: World,
}

impl Node {
    pub open spec fn well_formed(&self) -> bool {
        self.world.well_formed()
    }

    /// A node that knows no remote yet. `None` if the coordinates are not
    /// finite.
    pub fn new(config: NodeConfig, coordinates: Coordinates) -> (node: Option<Self>)
        ensures
            node.is_some() == coordinates.finite(),
            node matches Some(created) ==> {
                &&& created.well_formed()
                &&& created.world.config == config
                &&& created.world@.remotes.len() == 0
                &&& created.world@.coordinates == coordinates
                &&& created.world@.node_id == config.node_id
                &&& created.world@.known_pub_addr.is_none()
                &&& created.world@.iteration == 0
                &&& !update_due(created.world@)
            },
    {
        if coordinates.is_finite() {
            Some(Node { world: World::new(config, coordinates) })
        } else {
            None
        }
    }

    /// Whether the node has to shut down: it has, once no connection can
    /// come in any more and no session is left.
    pub fn must_shut_down(&self, listening: bool) -> (finished: bool)
        ensures
            finished == (!listening && !has_sessions(self.world@)),
    {
        if listening {
            return false;
        }
        let mut i: usize = 0;
        while i < self.world.remotes.len()
            invariant
                i <= self.world.remotes@.len(),
                forall|j: int| 0 <= j < i ==> !(#[trigger] self.world@.remotes[j]).session,
            decreases self.world.remotes@.len() - i,
        {
            if self.world.remotes[i].session {
                assert(self.world@.remotes[i as int].session);
                return false;
            }
            i += 1;
        }
        true
    }

    /// The coordinates of this node.
    pub fn coordinates(&self) -> (coordinates: Coordinates)
        ensures
            coordinates == self.world@.coordinates,
    {
        self.world.coordinates
    }

    /// Performs an action of the program around the node.
    ///
    /// `Connect` asks the transport for a connection unless a session with
    /// the node is live, and passes along what an earlier session left to
    /// resume from; a node not known before gets a record.
    /// `ForwardPacket` hands the packet to the session of the named peer, if
    /// it has one. `FindRouter` offers the peers that can relay for scoring.
    /// `GetInfo` and `GetRemoteInfo` emit a snapshot; a handle that names no
    /// remote, or a remote that was never measured, yields none.
    pub fn handle_node_action(&mut self, action: NodeAction) -> (effects: Vec<NodeEffect>)
        requires
            old(self).well_formed(),
        ensures
            final(self).well_formed(),
            final(self).world.config == old(self).world.config,
            performs(old(self).world@, final(self).world@, effects@, action),
    {
        let mut effects: Vec<NodeEffect> = Vec::new();
        match action {
            NodeAction::Connect(remote_id, address, pub_key) => {
                match self.world.find_entity(&remote_id) {
                    Some(entity) => {
                        let remote = &self.world.remotes[entity.index];
                        if !remote.session {
                            let persistent_state: Option<Vec<u8>> = match &remote.session_info {
                                Some(info) => match &info.persistent_state {
                                    Some(state) => Some(clone_bytes(state)),
                                    None => None,
                                },
                                None => None,
                            };
                            effects.push(
                                NodeEffect::Connect { remote_id, address, pub_key, persistent_state },
                            );
                        }
                    },
                    None => {
                        let _ = self.world.spawn(remote_id);
                        effects.push(
                            NodeEffect::Connect {
                                remote_id,
                                address,
                                pub_key,
                                persistent_state: None,
                            },
                        );
                    },
                }
            },
            NodeAction::ForwardPacket(remote_id, packet) => {
                if let Some(entity) = self.world.find_entity(&remote_id) {
                    if self.world.remotes[entity.index].session {
                        effects.push(
                            NodeEffect::SessionAction { entity, action: SessionAction::Packet(packet) },
                        );
                    }
                }
            },
            NodeAction::FindRouter(destination) => {
                let candidates: Vec<RouteCandidate> = RoutingSystem::candidates(&self.world);
                if candidates.len() > 0 {
                    effects.push(NodeEffect::FindRouter { destination, candidates });
                }
            },
            NodeAction::EstablishRoute(_) => {},
            NodeAction::GetInfo => {
                let mut remotes: Vec<(NodeID, Entity)> = Vec::new();
                let mut i: usize = 0;
                while i < self.world.remotes.len()
                    invariant
                        i <= self.world.remotes@.len(),
                        remotes@ == Seq::new(
                            i as nat,
                            |k: int| (self.world@.remotes[k].id, Entity { index: k as usize }),
                        ),
                    decreases self.world.remotes@.len() - i,
                {
                    remotes.push((self.world.remotes[i].id, Entity { index: i }));
                    i += 1;
                    assert(remotes@ =~= Seq::new(
                        i as nat,
                        |k: int| (self.world@.remotes[k].id, Entity { index: k as usize }),
                    ));
                }
                effects.push(
                    NodeEffect::Event(
                        NodeEvent::Info(
                            self.world.config.node_id,
                            clone_listener_config(&self.world.config.listener_config),
                            self.world.coordinates,
                            remotes,
                        ),
                    ),
                );
            },
            NodeAction::GetRemoteInfo(entity) => {
                if entity.index < self.world.remotes.len() {
                    let remote = &self.world.remotes[entity.index];
                    if let Some(metrics) = &remote.latency_metrics {
                        effects.push(
                            NodeEffect::Event(
                                NodeEvent::RemoteInfo(
                                    entity,
                                    remote.id,
                                    metrics.snapshot(),
                                    remote.coordinates,
                                ),
                            ),
                        );
                    }
                }
            },
        }
        effects
    }

    /// Takes in a connection that the transport established to the node
    /// `remote_id`, and returns the handle of that node.
    ///
    /// The remote gets a session, and what is needed to connect again is
    /// kept. A connection that this node asked for leaves it owing the
    /// remote its public address. A connection without an address is
    /// ignored, and `None` returned.
    pub fn handle_connection(&mut self, connection: Connection, remote_id: NodeID) -> (result: (
        Option<Entity>,
        Vec<NodeEffect>,
    ))
        requires
            old(self).well_formed(),
        ensures
            final(self).well_formed(),
            final(self).world.config == old(self).world.config,
            connection.incoming_address@.len() == 0 ==> {
                &&& final(self).world@ == old(self).world@
                &&& result.0.is_none()
                &&& result.1@.len() == 0
            },
            connection.incoming_address@.len() > 0 ==> {
                &&& final(self).world@ == after_connection(old(self).world@, connection, remote_id)
                &&& result.0 == Some(entity_after_connection(old(self).world@, remote_id))
                &&& result.1@ == seq![
                    NodeEffect::Event(NodeEvent::NewConnection(remote_id, connection.incoming_address)),
                ]
            },
    {
        let mut effects: Vec<NodeEffect> = Vec::new();
        if !address_is_valid(&connection.incoming_address) {
            return (None, effects);
        }
        let requested: bool = connection.requested;
        let address: Address = connection.incoming_address.clone();
        let entity: Entity = match self.world.find_entity(&remote_id) {
            Some(entity) => entity,
            None => self.world.spawn(remote_id),
        };
        let ghost spawned = self.world@;
        assert(spawned.remotes[entity.index as int].well_formed());
        let info = SessionInfo {
            net_address: connection.incoming_address,
            remote_pub_key: Some(connection.remote_pub_key),
            persistent_state: Some(connection.persistent_state),
        };
        self.world.remotes[entity.index].session_info = Some(info);
        self.world.remotes[entity.index].session = true;
        self.world.remotes[entity.index].session_added = true;
        self.world.remotes[entity.index].told_coordinates = None;
        self.world.remotes[entity.index].weight = CoordinateWeight { numerator: 0, denominator: 0 };
        if requested {
            self.world.remotes[entity.index].conn_receiver = true;
            self.world.remotes[entity.index].address_pending = true;
        }
        proof {
            let expected = after_connection(old(self).world@, connection, remote_id);
            let wanted = connected(spawned.remotes[entity.index as int], info_of(connection), requested);
            assert(self.world@.remotes[entity.index as int] == wanted);
            assert(self.world@.remotes =~= spawned.remotes.update(entity.index as int, wanted));
            assert(self.world@.remotes =~= expected.remotes);
            lemma_update_keeps_well_formed(
                spawned,
                entity,
                connected(spawned.remotes[entity.index as int], info_of(connection), requested),
            );
            assert(self.world@ == spawned.with_remote(
                entity,
                connected(spawned.remotes[entity.index as int], info_of(connection), requested),
            ));
        }
        effects.push(NodeEffect::Event(NodeEvent::NewConnection(remote_id, address)));
        (Some(entity), effects)
    }

    /// Takes in that the session of `entity` ended.
    pub fn handle_session_closed(&mut self, entity: Entity)
        requires
            old(self).well_formed(),
        ensures
            final(self).well_formed(),
            final(self).world.config == old(self).world.config,
            final(self).world@ == after_session_closed(old(self).world@, entity),
    {
        if entity.index < self.world.remotes.len() {
            assert(old(self).world@.remotes[entity.index as int].well_formed());
            self.world.remotes[entity.index].session = false;
            self.world.remotes[entity.index].session_added = false;
            proof {
                let expected = after_session_closed(old(self).world@, entity);
                assert(self.world@.remotes =~= expected.remotes);
                lemma_update_keeps_well_formed(
                    old(self).world@,
                    entity,
                    expected.remotes[entity.index as int],
                );
            }
        }
    }

    /// Takes in the tick of the timer: a coordinate update is due.
    pub fn handle_timer(&mut self)
        ensures
            final(self).world.config == old(self).world.config,
            final(self).world@ == (WorldModel { should_update: true, ..old(self).world@ }),
    {
        self.world.should_update = true;
    }

    /// Takes in an event that a session reported at `now`.
    pub fn handle_session_events(&mut self, session_event: EntitySessionEvent, now: Timestamp) -> (effects:
        Vec<NodeEffect>)
        requires
            old(self).well_formed(),
        ensures
            final(self).well_formed(),
            final(self).world.config == old(self).world.config,
            dispatches(old(self).world@, final(self).world@, effects@, session_event, now),
    {
        let EntitySessionEvent { entity, event } = session_event;
        match event {
            SessionEvent::Packet(packet) => match packet {
                NodePacket::DiscoveryPacket(packet) => DiscoverySystem::handle_packet(
                    &mut self.world,
                    entity,
                    packet,
                ),
                NodePacket::NCSystemPacket(packet) => NCSystem::handle_packet(
                    &mut self.world,
                    entity,
                    packet,
                ),
                NodePacket::Traversal(packet) => RoutingSystem::handle_packet(
                    &self.world,
                    entity,
                    packet,
                ),
                NodePacket::Data(_) => Vec::new(),
            },
            SessionEvent::Traversal(packet) => RoutingSystem::handle_packet(
                &self.world,
                entity,
                packet,
            ),
            SessionEvent::LatencyMeasurement(latency) => {
                LatencyMetricsSystem::handle_packet(&mut self.world, entity, latency, now);
                Vec::new()
            },
        }
    }

    /// Marks every remote as settled: what was new to the systems in this
    /// run no longer is.
    fn settle(&mut self)
        requires
            old(self).well_formed(),
        ensures
            final(self).well_formed(),
            final(self).world.config == old(self).world.config,
            final(self).world@ == after_settling(old(self).world@),
    {
        let ghost before = self.world@;
        let mut i: usize = 0;
        while i < self.world.remotes.len()
            invariant
                before == old(self).world@,
                before.well_formed(),
                self.world.config == old(self).world.config,
                i <= self.world.remotes@.len(),
                self.world.remotes@.len() == before.remotes.len(),
                self.world@ == (WorldModel { remotes: self.world@.remotes, ..before }),
                forall|j: int| 0 <= j < i ==> #[trigger] self.world@.remotes[j] == settled(before.remotes[j]),
                forall|j: int|
                    i <= j < before.remotes.len() ==> #[trigger] self.world@.remotes[j]
                        == before.remotes[j],
            decreases self.world.remotes@.len() - i,
        {
            let ghost current = self.world@;
            assert(current.remotes[i as int] == before.remotes[i as int]);
            self.world.remotes[i].session_added = false;
            self.world.remotes[i].address_pending = false;
            assert forall|j: int| 0 <= j < i + 1 implies #[trigger] self.world@.remotes[j] == settled(
                before.remotes[j],
            ) by {
                if j < i {
                    assert(self.world@.remotes[j] == current.remotes[j]);
                }
            }
            assert forall|j: int| i + 1 <= j < before.remotes.len() implies #[trigger] self.world@.remotes[j]
                == before.remotes[j] by {
                assert(self.world@.remotes[j] == current.remotes[j]);
            }
            i += 1;
        }
        proof {
            assert(self.world@.remotes =~= after_settling(before).remotes);
            lemma_remotes_stay_well_formed(before, self.world@);
        }
    }

    /// Runs the systems once, at time `now`: latency, discovery, and the
    /// coordinate systems up to the posing of the fit.
    ///
    /// The latency system asks new sessions for a measurement and every
    /// measured remote for what its metrics want. The discovery system asks
    /// new sessions for peers and answers the remotes that wait to learn
    /// our public address, for which it consults the transport. The
    /// coordinate systems tell new sessions our coordinates and, if an
    /// update is due, weigh the remotes and pose the fit. The outcome is
    /// that of `schedule_runs` for the transport's predictions.
    pub fn run_schedule<Net: Network>(&mut self, now: Timestamp) -> (outcome: ScheduleOutcome)
        requires
            old(self).well_formed(),
        ensures
            final(self).well_formed(),
            final(self).world.config == old(self).world.config,
            exists|predictions: Seq<Option<Address>>|
                schedule_runs::<Net>(
                    old(self).world@,
                    final(self).world@,
                    outcome.effects@,
                    outcome.problem,
                    now,
                    predictions,
                ),
    {
        let ghost before = self.world@;
        let mut effects: Vec<NodeEffect> = LatencyMetricsSystem::session_setup(&self.world);
        let mut wanted: Vec<NodeEffect> = LatencyMetricsSystem::notify_session_to_ping(
            &mut self.world,
            now,
        );
        effects.append(&mut wanted);
        let ghost measured = self.world@;
        let mut requests: Vec<NodeEffect> = DiscoverySystem::session_setup(&self.world);
        effects.append(&mut requests);
        let mut answers: Vec<NodeEffect> = DiscoverySystem::handle_conn_request::<Net>(
            &mut self.world,
        );
        let ghost answered = self.world@;
        let ghost predictions = choose|predictions: Seq<Option<Address>>|
            discovery::answers_with::<Net>(measured, answered, answers@, predictions);
        effects.append(&mut answers);
        let mut coordinates: Vec<NodeEffect> = NCSystem::setup_session(&mut self.world);
        let ghost told = self.world@;
        effects.append(&mut coordinates);
        NCSystem::nc_system_controller(&mut self.world);
        let problem: Option<CoordinateProblem> = if self.world.should_update {
            NCSystem::calculate_weights(&mut self.world, now);
            assert(self.world@ == at_fit(told, now));
            NCSystem::network_coordinate_system(&mut self.world)
        } else {
            None
        };
        assert(self.world@ == after_coordinate_systems(told, now));
        self.settle();
        let outcome = ScheduleOutcome { effects, problem };
        proof {
            assert(measured == after_latency(before, now));
            assert(answered == discovery::after_answers(measured, predictions));
            assert(schedule_runs::<Net>(
                old(self).world@,
                self.world@,
                outcome.effects@,
                outcome.problem,
                now,
                predictions,
            ));
        }
        outcome
    }

    /// Takes in the outcome of a step of the coordinate fit.
    pub fn apply_step(&mut self, outcome: SolverOutcome) -> (effects: Vec<NodeEffect>)
        requires
            old(self).well_formed(),
        ensures
            final(self).well_formed(),
            final(self).world.config == old(self).world.config,
            final(self).world@ == nc_system::after_step(old(self).world@, outcome),
            effects@ == if nc_system::improves(old(self).world@, outcome) {
                nc_system::coordinate_effects(
                    old(self).world@.remotes,
                    final(self).world@.coordinates,
                    false,
                    old(self).world@.remotes.len(),
                )
            } else {
                Seq::<NodeEffect>::empty()
            },
    {
        NCSystem::apply_step(&mut self.world, outcome)
    }
}

} // verus!
