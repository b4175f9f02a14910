//! The network-coordinate system: bookkeeping around the fit of the node's
//! own coordinates to the measured latencies.
//!
//! The fit itself is numerical work that the embedding program does. The
//! rules here decide when a fit is due, weigh the remotes, put the problem
//! together, take the result in and tell the peers.

use crate::coordinates::Coordinates;
use crate::latency_metrics::Latency;
use crate::net::Entity;
use crate::packet::NCSystemPacket;
use crate::packet::NodePacket;
use crate::ping::elapsed_between;
use crate::ping::Timestamp;
use crate::session::SessionAction;
use crate::world::lemma_remotes_stay_well_formed;
use crate::world::lemma_update_keeps_well_formed;
use crate::world::send_packet;
use crate::world::CoordinateWeight;
use crate::world::NodeEffect;
use crate::world::RemoteModel;
use crate::world::World;
use crate::world::WorldModel;
use vstd::prelude::*;

verus! {

/// Tells the remote `entity` the coordinates `coordinates`.
pub open spec fn notify_coordinates(entity: Entity, coordinates: Coordinates) -> NodeEffect {
    send_packet(
        entity,
        NodePacket::NCSystemPacket(NCSystemPacket::NotifyNetworkCoordinates(coordinates)),
    )
}

/// Whether the remote is to be told `coordinates`: it has a session, it
/// was not told these coordinates over it already, and, with `fresh_only`
/// set, the session was established since the systems last ran.
pub open spec fn is_due(remote: RemoteModel, coordinates: Coordinates, fresh_only: bool) -> bool {
    &&& remote.session
    &&& remote.session_added || !fresh_only
    &&& remote.told_coordinates != Some(coordinates)
}

/// A remote after coordinates went out: if it was due, it has now been told
/// them.
pub open spec fn told(remote: RemoteModel, coordinates: Coordinates, fresh_only: bool) -> RemoteModel {
    if is_due(remote, coordinates, fresh_only) {
        RemoteModel { told_coordinates: Some(coordinates), ..remote }
    } else {
        remote
    }
}

/// What is sent to the first `upto` remotes when `coordinates` go out: one
/// notification to every remote that is due.
pub open spec fn coordinate_effects(
    remotes: Seq<RemoteModel>,
    coordinates: Coordinates,
    fresh_only: bool,
    upto: nat,
) -> Seq<NodeEffect>
    decreases upto,
{
    if upto == 0 {
        Seq::empty()
    } else {
        let index = (upto - 1) as nat;
        let earlier = coordinate_effects(remotes, coordinates, fresh_only, index);
        if is_due(remotes[index as int], coordinates, fresh_only) {
            earlier.push(notify_coordinates(Entity { index: index as usize }, coordinates))
        } else {
            earlier
        }
    }
}

/// The world after the node's coordinates went out.
pub open spec fn after_telling(world: WorldModel, fresh_only: bool) -> WorldModel {
    WorldModel {
        remotes: Seq::new(
            world.remotes.len(),
            |i: int| told(world.remotes[i], world.coordinates, fresh_only),
        ),
        ..world
    }
}

/// The world after the remote `entity` was told the node's coordinates on
/// its request.
pub open spec fn after_request(world: WorldModel, entity: Entity) -> WorldModel {
    world.with_remote(
        entity,
        RemoteModel {
            told_coordinates: Some(world.coordinates),
            ..world.remotes[entity.index as int]
        },
    )
}

/// The world after the remote `entity` reported its coordinates.
/// Coordinates that are not finite are ignored.
pub open spec fn after_coordinates(world: WorldModel, entity: Entity, coordinates: Coordinates) -> WorldModel {
    if coordinates.finite() {
        WorldModel {
            coordinates_changed: true,
            ..world.with_remote(
                entity,
                RemoteModel {
                    coordinates: Some(coordinates),
                    ..world.remotes[entity.index as int]
                },
            )
        }
    } else {
        world
    }
}

/// How long ago the remote was last measured; zero for a remote without
/// measurements.
pub open spec fn age(remote: RemoteModel, now: Timestamp) -> nat {
    match remote.latency_metrics {
        Some(metrics) => elapsed_between(metrics.last_update, now) as nat,
        None => 0,
    }
}

/// The largest age among the first `upto` remotes.
pub open spec fn max_age(remotes: Seq<RemoteModel>, now: Timestamp, upto: nat) -> nat
    decreases upto,
{
    if upto == 0 {
        0
    } else {
        let earlier = max_age(remotes, now, (upto - 1) as nat);
        let own = age(remotes[upto - 1], now);
        if own > earlier {
            own
        } else {
            earlier
        }
    }
}

/// By how much the remote's last measurement is newer than one of age
/// `oldest`; zero for a remote without measurements.
pub open spec fn freshness(remote: RemoteModel, now: Timestamp, oldest: nat) -> nat {
    if remote.latency_metrics is Some && oldest >= age(remote, now) {
        (oldest - age(remote, now)) as nat
    } else {
        0
    }
}

/// The sum of the freshness of the first `upto` remotes.
pub open spec fn freshness_sum(remotes: Seq<RemoteModel>, now: Timestamp, oldest: nat, upto: nat) -> nat
    decreases upto,
{
    if upto == 0 {
        0
    } else {
        freshness_sum(remotes, now, oldest, (upto - 1) as nat) + freshness(
            remotes[upto - 1],
            now,
            oldest,
        )
    }
}

/// A remote after the weights were computed: a remote with measurements
/// gets its freshness over the sum `total` of all of them. With a sum of
/// zero no weight changes.
pub open spec fn weighted(remote: RemoteModel, now: Timestamp, oldest: nat, total: nat) -> RemoteModel {
    if remote.latency_metrics is Some && total > 0 {
        RemoteModel {
            weight: CoordinateWeight {
                numerator: freshness(remote, now, oldest) as u64,
                denominator: total as u128,
            },
            ..remote
        }
    } else {
        remote
    }
}

/// The remotes after the weights were computed at `now`.
pub open spec fn reweighted(remotes: Seq<RemoteModel>, now: Timestamp) -> Seq<RemoteModel> {
    let oldest = max_age(remotes, now, remotes.len());
    let total = freshness_sum(remotes, now, oldest, remotes.len());
    Seq::new(remotes.len(), |i: int| weighted(remotes[i], now, oldest, total))
}

/// The sum of the weight numerators of those of the first `upto` remotes
/// that have measurements.
pub open spec fn numerator_sum(remotes: Seq<RemoteModel>, upto: nat) -> nat
    decreases upto,
{
    if upto == 0 {
        0
    } else {
        numerator_sum(remotes, (upto - 1) as nat) + if remotes[upto - 1].latency_metrics is Some {
            remotes[upto - 1].weight.numerator as nat
        } else {
            0
        }
    }
}

/// Whether a remote takes part in the fit: it reported coordinates and a
/// round trip to it was measured.
pub open spec fn takes_part(remote: RemoteModel) -> bool {
    remote.coordinates is Some && remote.latency_metrics is Some
}

/// The positions of those of the first `upto` remotes that take part in
/// the fit, in order.
pub open spec fn fit_entities(remotes: Seq<RemoteModel>, upto: nat) -> Seq<int>
    decreases upto,
{
    if upto == 0 {
        Seq::empty()
    } else {
        let earlier = fit_entities(remotes, (upto - 1) as nat);
        if takes_part(remotes[upto - 1]) {
            earlier.push(upto - 1)
        } else {
            earlier
        }
    }
}

/// The data of one coordinate fit. The three vectors run in parallel: one
/// entry per remote that takes part.
#[derive(Clone, Debug, PartialEq, Eq)]
pub struct CoordinateProblem {
    /// The coordinates to start from.
    pub param: Coordinates,
    /// The number of updates made so far.
    pub iteration: u64,
    /// The newest round-trip time measured to each remote, in microseconds.
    pub remote_measurements: Vec<Latency>,
    /// The coordinates that each remote reported.
    pub remote_coords: Vec<Coordinates>,
    /// The weight of each remote.
    pub remote_weights: Vec<CoordinateWeight>,
}

impl CoordinateProblem {
    /// Whether this is the problem that the world poses.
    pub open spec fn poses(&self, world: WorldModel) -> bool {
        let entities = fit_entities(world.remotes, world.remotes.len());
        &&& self.param == world.coordinates
        &&& self.iteration == world.iteration
        &&& self.remote_measurements@ == Seq::new(
            entities.len(),
            |k: int| world.remotes[entities[k]].latency_metrics->Some_0.window.last(),
        )
        &&& self.remote_coords@ == Seq::new(
            entities.len(),
            |k: int| world.remotes[entities[k]].coordinates->Some_0,
        )
        &&& self.remote_weights@ == Seq::new(
            entities.len(),
            |k: int| world.remotes[entities[k]].weight,
        )
    }
}

/// What the embedding program reports of one step of the fit.
#[derive(Clone, Copy, Debug, PartialEq, Eq)]
pub enum SolverOutcome {
    /// The step was made; these are the best coordinates found so far.
    Stepped(Coordinates),
    /// The step could not be made.
    Failed,
}

/// Whether some remote takes part in the fit.
pub open spec fn has_participants(world: WorldModel) -> bool {
    fit_entities(world.remotes, world.remotes.len()).len() > 0
}

/// Whether the outcome of a step replaces the node's coordinates: some
/// remote takes part in the fit, the step was made, its coordinates are
/// finite, and they differ from the current ones.
pub open spec fn improves(world: WorldModel, outcome: SolverOutcome) -> bool {
    &&& has_participants(world)
    &&& outcome matches SolverOutcome::Stepped(coordinates)
    &&& coordinates.finite()
    &&& coordinates != world.coordinates
}

/// The world after the outcome of a step was taken in. A step with finite
/// coordinates counts as an update, and coordinates that differ from those
/// before go out to the remotes; other outcomes change nothing, and
/// without a remote that takes part in the fit no outcome does.
pub open spec fn after_step(world: WorldModel, outcome: SolverOutcome) -> WorldModel {
    match outcome {
        SolverOutcome::Stepped(coordinates) => if coordinates.finite() && has_participants(world) {
            let stepped = WorldModel {
                coordinates,
                iteration: if world.iteration < u64::MAX {
                    (world.iteration + 1) as u64
                } else {
                    world.iteration
                },
                ..world
            };
            if coordinates != world.coordinates {
                after_telling(stepped, false)
            } else {
                stepped
            }
        } else {
            world
        },
        SolverOutcome::Failed => world,
    }
}

/// Whether `after` and `effects` are what handling a coordinate packet
/// from `entity` leads to.
pub open spec fn handles_packet(
    before: WorldModel,
    after: WorldModel,
    effects: Seq<NodeEffect>,
    entity: Entity,
    packet: NCSystemPacket,
) -> bool {
    &&& !before.contains(entity) ==> after == before && effects.len() == 0
    &&& before.contains(entity) ==> match packet {
        NCSystemPacket::RequestNetworkCoordinates => {
            &&& after == after_request(before, entity)
            &&& effects == seq![notify_coordinates(entity, before.coordinates)]
        },
        NCSystemPacket::NotifyNetworkCoordinates(coordinates) => {
            &&& after == after_coordinates(before, entity, coordinates)
            &&& effects.len() == 0
        },
    }
}

/// The system of network coordinates.
pub struct NCSystem {}

impl NCSystem {
    /// Handles a packet of this system that came from `entity`.
    ///
    /// A request is answered with the node's coordinates, which the remote
    /// then counts as told. Coordinates that the remote reports are
    /// recorded, unless they are not finite. A handle that names no remote
    /// is ignored.
    pub fn handle_packet(world: &mut World, entity: Entity, packet: NCSystemPacket) -> (effects: Vec<
        NodeEffect,
    >)
        requires
            old(world).well_formed(),
        ensures
            final(world).well_formed(),
            final(world).config == old(world).config,
            handles_packet(old(world)@, final(world)@, effects@, entity, packet),
    {
        let mut effects: Vec<NodeEffect> = Vec::new();
        if entity.index >= world.remotes.len() {
            return effects;
        }
        assert(old(world)@.remotes[entity.index as int].well_formed());
        match packet {
            NCSystemPacket::RequestNetworkCoordinates => {
                effects.push(
                    NodeEffect::SessionAction {
                        entity,
                        action: SessionAction::Packet(
                            NodePacket::NCSystemPacket(
                                NCSystemPacket::NotifyNetworkCoordinates(world.coordinates),
                            ),
                        ),
                    },
                );
                world.remotes[entity.index].told_coordinates = Some(world.coordinates);
                proof {
                    let expected = after_request(old(world)@, entity);
                    assert(world@.remotes =~= expected.remotes);
                    lemma_update_keeps_well_formed(
                        old(world)@,
                        entity,
                        expected.remotes[entity.index as int],
                    );
                }
            },
            NCSystemPacket::NotifyNetworkCoordinates(coordinates) => {
                if coordinates.is_finite() {
                    world.remotes[entity.index].coordinates = Some(coordinates);
                    world.coordinates_changed = true;
                    proof {
                        let expected = after_coordinates(old(world)@, entity, coordinates);
                        assert(world@.remotes =~= expected.remotes);
                        lemma_update_keeps_well_formed(
                            old(world)@,
                            entity,
                            expected.remotes[entity.index as int],
                        );
                    }
                }
            },
        }
        effects
    }

    /// Tells the node's coordinates to every remote that is due: one with a
    /// session that was not told them already, and, with `fresh_only` set,
    /// whose session was established since the systems last ran.
    fn send_coordinates(world: &mut World, fresh_only: bool) -> (effects: Vec<NodeEffect>)
        requires
            old(world).well_formed(),
        ensures
            final(world).well_formed(),
            final(world).config == old(world).config,
            final(world)@ == after_telling(old(world)@, fresh_only),
            effects@ == coordinate_effects(
                old(world)@.remotes,
                old(world)@.coordinates,
                fresh_only,
                old(world)@.remotes.len(),
            ),
    {
        let mut effects: Vec<NodeEffect> = Vec::new();
        let ghost before = world@;
        let coordinates: Coordinates = world.coordinates;
        let mut i: usize = 0;
        while i < world.remotes.len()
            invariant
                before == old(world)@,
                world.config == old(world).config,
                coordinates == before.coordinates,
                i <= world.remotes@.len(),
                world.remotes@.len() == before.remotes.len(),
                world@ == (WorldModel { remotes: world@.remotes, ..before }),
                forall|j: int|
                    0 <= j < i ==> #[trigger] world@.remotes[j] == told(
                        before.remotes[j],
                        coordinates,
                        fresh_only,
                    ),
                forall|j: int|
                    i <= j < before.remotes.len() ==> #[trigger] world@.remotes[j] == before.remotes[j],
                effects@ == coordinate_effects(before.remotes, coordinates, fresh_only, i as nat),
            decreases world.remotes@.len() - i,
        {
            let ghost current = world@;
            assert(current.remotes[i as int] == before.remotes[i as int]);
            let known: bool = match &world.remotes[i].told_coordinates {
                Some(last) => last.same(&coordinates),
                None => false,
            };
            if world.remotes[i].session && (world.remotes[i].session_added || !fresh_only)
                && !known {
                effects.push(
                    NodeEffect::SessionAction {
                        entity: Entity { index: i },
                        action: SessionAction::Packet(
                            NodePacket::NCSystemPacket(
                                NCSystemPacket::NotifyNetworkCoordinates(coordinates),
                            ),
                        ),
                    },
                );
                world.remotes[i].told_coordinates = Some(coordinates);
            }
            assert forall|j: int| 0 <= j < i + 1 implies #[trigger] world@.remotes[j] == told(
                before.remotes[j],
                coordinates,
                fresh_only,
            ) by {
                if j < i {
                    assert(world@.remotes[j] == current.remotes[j]);
                }
            }
            assert forall|j: int| i + 1 <= j < before.remotes.len() implies #[trigger] world@.remotes[j]
                == before.remotes[j] by {
                assert(world@.remotes[j] == current.remotes[j]);
            }
            i += 1;
        }
        proof {
            assert(world@.remotes =~= after_telling(before, fresh_only).remotes);
            lemma_remotes_stay_well_formed(before, world@);
        }
        effects
    }

    /// Tells the node's coordinates to every session established since the
    /// systems last ran, unless the remote was told them over it already.
    pub fn setup_session(world: &mut World) -> (effects: Vec<NodeEffect>)
        requires
            old(world).well_formed(),
        ensures
            final(world).well_formed(),
            final(world).config == old(world).config,
            final(world)@ == after_telling(old(world)@, true),
            effects@ == coordinate_effects(
                old(world)@.remotes,
                old(world)@.coordinates,
                true,
                old(world)@.remotes.len(),
            ),
    {
        Self::send_coordinates(world, true)
    }

    /// Tells the node's coordinates to every remote with a session that was
    /// not told them already. Calling it again tells nobody.
    pub fn push_coordinates(world: &mut World) -> (effects: Vec<NodeEffect>)
        requires
            old(world).well_formed(),
        ensures
            final(world).well_formed(),
            final(world).config == old(world).config,
            final(world)@ == after_telling(old(world)@, false),
            effects@ == coordinate_effects(
                old(world)@.remotes,
                old(world)@.coordinates,
                false,
                old(world)@.remotes.len(),
            ),
    {
        Self::send_coordinates(world, false)
    }

    /// Decides whether a coordinate update is due: it is once a latency was
    /// measured and a remote reported coordinates since the last update.
    pub fn nc_system_controller(world: &mut World)
        ensures
            old(world).well_formed() ==> final(world).well_formed(),
            final(world).config == old(world).config,
            final(world)@ == (WorldModel {
                should_update: old(world)@.should_update || (old(world)@.metrics_changed && old(
                    world,
                )@.coordinates_changed),
                ..old(world)@
            }),
    {
        if world.metrics_changed && world.coordinates_changed {
            world.should_update = true;
        }
        assert(world@.remotes =~= old(world)@.remotes);
    }

    /// Computes the weight of every remote with measurements at `now`: by
    /// how much its last measurement is newer than the oldest one, over the
    /// sum of that over all remotes. Where the sum is zero the weights stay
    /// as they are.
    pub fn calculate_weights(world: &mut World, now: Timestamp)
        requires
            old(world).well_formed(),
        ensures
            final(world).well_formed(),
            final(world).config == old(world).config,
            final(world)@ == (WorldModel {
                remotes: reweighted(old(world)@.remotes, now),
                ..old(world)@
            }),
    {
        let ghost before = world@;
        let count: usize = world.remotes.len();
        let mut oldest: u64 = 0;
        let mut i: usize = 0;
        while i < count
            invariant
                world@ == before,
                before.well_formed(),
                count == before.remotes.len(),
                i <= count,
                oldest == max_age(before.remotes, now, i as nat),
            decreases count - i,
        {
            assert(before.remotes[i as int] == world.remotes@[i as int]@);
            if let Some(metrics) = &world.remotes[i].latency_metrics {
                let own: u64 = now.saturating_sub(metrics.last_update());
                if own > oldest {
                    oldest = own;
                }
            }
            i += 1;
        }
        let mut total: u128 = 0;
        i = 0;
        while i < count
            invariant
                world@ == before,
                before.well_formed(),
                count == before.remotes.len(),
                i <= count,
                oldest == max_age(before.remotes, now, count as nat),
                total == freshness_sum(before.remotes, now, oldest as nat, i as nat),
                total <= i * 0xffff_ffff_ffff_ffff,
            decreases count - i,
        {
            assert(before.remotes[i as int] == world.remotes@[i as int]@);
            if let Some(metrics) = &world.remotes[i].latency_metrics {
                let own: u64 = now.saturating_sub(metrics.last_update());
                if oldest >= own {
                    total = total + (oldest - own) as u128;
                }
            }
            i += 1;
        }
        if total == 0 {
            assert(world@.remotes =~= reweighted(before.remotes, now));
            return ;
        }
        i = 0;
        while i < count
            invariant
                before == old(world)@,
                before.well_formed(),
                world.config == old(world).config,
                count == before.remotes.len(),
                world.remotes@.len() == count,
                i <= count,
                oldest == max_age(before.remotes, now, count as nat),
                total == freshness_sum(before.remotes, now, oldest as nat, count as nat),
                total > 0,
                world@ == (WorldModel { remotes: world@.remotes, ..before }),
                forall|j: int|
                    0 <= j < i ==> #[trigger] world@.remotes[j] == weighted(
                        before.remotes[j],
                        now,
                        oldest as nat,
                        total as nat,
                    ),
                forall|j: int| i <= j < count ==> #[trigger] world@.remotes[j] == before.remotes[j],
            decreases count - i,
        {
            let ghost current = world@;
            assert(current.remotes[i as int] == before.remotes[i as int]);
            let fresh: Option<u64> = match &world.remotes[i].latency_metrics {
                Some(metrics) => {
                    let own: u64 = now.saturating_sub(metrics.last_update());
                    if oldest >= own {
                        Some(oldest - own)
                    } else {
                        Some(0)
                    }
                },
                None => None,
            };
            if let Some(numerator) = fresh {
                world.remotes[i].weight = CoordinateWeight { numerator, denominator: total };
            }
            assert forall|j: int| 0 <= j < i + 1 implies #[trigger] world@.remotes[j] == weighted(
                before.remotes[j],
                now,
                oldest as nat,
                total as nat,
            ) by {
                if j < i {
                    assert(world@.remotes[j] == current.remotes[j]);
                }
            }
            assert forall|j: int| i + 1 <= j < count implies #[trigger] world@.remotes[j]
                == before.remotes[j] by {
                assert(world@.remotes[j] == current.remotes[j]);
            }
            i += 1;
        }
        proof {
            assert(world@.remotes =~= reweighted(before.remotes, now));
            assert forall|j: int|
                0 <= j < before.remotes.len() && before.remotes[j].well_formed() implies (
            #[trigger] world@.remotes[j]).well_formed() by {
                lemma_freshness_within_sum(before.remotes, now, oldest as nat, count as nat, j);
            }
            lemma_remotes_stay_well_formed(before, world@);
        }
    }

    /// Puts together the problem of the next fit: one entry for every
    /// remote that reported coordinates and was measured. With this the
    /// update counts as under way: the marks that made it due are cleared.
    /// `None` if no remote takes part; the marks are cleared all the same.
    pub fn network_coordinate_system(world: &mut World) -> (problem: Option<CoordinateProblem>)
        requires
            old(world).well_formed(),
        ensures
            final(world).well_formed(),
            final(world).config == old(world).config,
            final(world)@ == (WorldModel {
                should_update: false,
                metrics_changed: false,
                coordinates_changed: false,
                ..old(world)@
            }),
            match problem {
                Some(posed) => posed.poses(old(world)@) && posed.remote_coords@.len() > 0,
                None => fit_entities(old(world)@.remotes, old(world)@.remotes.len()).len() == 0,
            },
    {
        let ghost before = world@;
        let mut remote_measurements: Vec<Latency> = Vec::new();
        let mut remote_coords: Vec<Coordinates> = Vec::new();
        let mut remote_weights: Vec<CoordinateWeight> = Vec::new();
        let mut i: usize = 0;
        while i < world.remotes.len()
            invariant
                world@ == before,
                before.well_formed(),
                i <= world.remotes@.len(),
                remote_measurements@ == Seq::new(
                    fit_entities(before.remotes, i as nat).len(),
                    |k: int|
                        before.remotes[fit_entities(
                            before.remotes,
                            i as nat,
                        )[k]].latency_metrics->Some_0.window.last(),
                ),
                remote_coords@ == Seq::new(
                    fit_entities(before.remotes, i as nat).len(),
                    |k: int| before.remotes[fit_entities(before.remotes, i as nat)[k]].coordinates->Some_0,
                ),
                remote_weights@ == Seq::new(
                    fit_entities(before.remotes, i as nat).len(),
                    |k: int| before.remotes[fit_entities(before.remotes, i as nat)[k]].weight,
                ),
            decreases world.remotes@.len() - i,
        {
            let ghost earlier = fit_entities(before.remotes, i as nat);
            assert(before.remotes[i as int] == world.remotes@[i as int]@);
            assert(before.remotes[i as int].well_formed());
            if let Some(coordinates) = world.remotes[i].coordinates {
                if let Some(metrics) = &world.remotes[i].latency_metrics {
                    remote_measurements.push(metrics.latest_latency());
                    remote_coords.push(coordinates);
                    remote_weights.push(world.remotes[i].weight);
                }
            }
            i += 1;
            proof {
                let entities = fit_entities(before.remotes, i as nat);
                assert(remote_measurements@ =~= Seq::new(
                    entities.len(),
                    |k: int| before.remotes[entities[k]].latency_metrics->Some_0.window.last(),
                ));
                assert(remote_coords@ =~= Seq::new(
                    entities.len(),
                    |k: int| before.remotes[entities[k]].coordinates->Some_0,
                ));
                assert(remote_weights@ =~= Seq::new(
                    entities.len(),
                    |k: int| before.remotes[entities[k]].weight,
                ));
            }
        }
        world.should_update = false;
        world.metrics_changed = false;
        world.coordinates_changed = false;
        assert(world@.remotes =~= before.remotes);
        if remote_coords.len() == 0 {
            None
        } else {
            Some(
                CoordinateProblem {
                    param: world.coordinates,
                    iteration: world.iteration,
                    remote_measurements,
                    remote_coords,
                    remote_weights,
                },
            )
        }
    }

    /// Whether some remote takes part in the fit.
    pub fn has_participants(world: &World) -> (any: bool)
        ensures
            any == has_participants(world@),
    {
        let mut found: bool = false;
        let mut i: usize = 0;
        while i < world.remotes.len()
            invariant
                i <= world.remotes@.len(),
                found == (fit_entities(world@.remotes, i as nat).len() > 0),
            decreases world.remotes@.len() - i,
        {
            if world.remotes[i].coordinates.is_some() && world.remotes[i].latency_metrics.is_some() {
                found = true;
            }
            i += 1;
        }
        found
    }

    /// Takes in the outcome of a step of the fit.
    ///
    /// Coordinates that are finite become the node's coordinates and count
    /// as one more update; if they differ from the coordinates before, every
    /// remote with a session is told them, unless it was told them already.
    /// A failed step, or one whose coordinates are not finite, changes
    /// nothing; nor does any outcome while no remote takes part in the fit.
    pub fn apply_step(world: &mut World, outcome: SolverOutcome) -> (effects: Vec<NodeEffect>)
        requires
            old(world).well_formed(),
        ensures
            final(world).well_formed(),
            final(world).config == old(world).config,
            final(world)@ == after_step(old(world)@, outcome),
            effects@ == if improves(old(world)@, outcome) {
                coordinate_effects(
                    old(world)@.remotes,
                    final(world)@.coordinates,
                    false,
                    old(world)@.remotes.len(),
                )
            } else {
                Seq::<NodeEffect>::empty()
            },
    {
        match outcome {
            SolverOutcome::Stepped(coordinates) => {
                if coordinates.is_finite() && Self::has_participants(world) {
                    let changed: bool = !coordinates.same(&world.coordinates);
                    world.coordinates = coordinates;
                    if world.iteration < u64::MAX {
                        world.iteration = world.iteration + 1;
                    }
                    proof {
                        assert(world@.remotes =~= old(world)@.remotes);
                        lemma_remotes_stay_well_formed(old(world)@, world@);
                    }
                    if changed {
                        return Self::push_coordinates(world);
                    }
                }
                Vec::new()
            },
            SolverOutcome::Failed => Vec::new(),
        }
    }
}

/// The remote that an effect is addressed to, if it goes to a session.
pub open spec fn addressee(effect: NodeEffect) -> Option<Entity> {
    match effect {
        NodeEffect::SessionAction { entity, .. } => Some(entity),
        _ => None,
    }
}

/// When coordinates go out, each of the remotes told is told once, in the
/// order of their handles; all are told the same coordinates, and each was
/// due.
pub proof fn lemma_coordinates_go_out_once(
    remotes: Seq<RemoteModel>,
    coordinates: Coordinates,
    fresh_only: bool,
    upto: nat,
)
    requires
        upto <= usize::MAX,
    ensures
        ({
            let sent = coordinate_effects(remotes, coordinates, fresh_only, upto);
            &&& sent.len() <= upto
            &&& forall|k: int|
                0 <= k < sent.len() ==> {
                    &&& (#[trigger] addressee(sent[k])) is Some
                    &&& addressee(sent[k])->Some_0.index < upto
                    &&& is_due(
                        remotes[addressee(sent[k])->Some_0.index as int],
                        coordinates,
                        fresh_only,
                    )
                    &&& sent[k] == notify_coordinates(addressee(sent[k])->Some_0, coordinates)
                }
            &&& forall|j: int, k: int|
                0 <= j < k < sent.len() ==> (#[trigger] addressee(sent[j]))->Some_0.index < (
                #[trigger] addressee(sent[k]))->Some_0.index
        }),
    decreases upto,
{
    if upto > 0 {
        lemma_coordinates_go_out_once(remotes, coordinates, fresh_only, (upto - 1) as nat);
    }
}

/// A remote that was told the coordinates is not told them again: nothing
/// goes to it when the same coordinates go out, while every other remote is
/// sent at most one notification.
pub proof fn lemma_told_remote_is_skipped(
    remotes: Seq<RemoteModel>,
    coordinates: Coordinates,
    fresh_only: bool,
    entity: Entity,
)
    requires
        remotes.len() <= usize::MAX,
        entity.index < remotes.len(),
        remotes[entity.index as int].told_coordinates == Some(coordinates),
    ensures
        ({
            let sent = coordinate_effects(remotes, coordinates, fresh_only, remotes.len());
            &&& forall|k: int| 0 <= k < sent.len() ==> #[trigger] addressee(sent[k]) != Some(entity)
            &&& forall|j: int, k: int|
                0 <= j < k < sent.len() ==> #[trigger] addressee(sent[j]) != #[trigger] addressee(
                    sent[k],
                )
        }),
{
    lemma_coordinates_go_out_once(remotes, coordinates, fresh_only, remotes.len());
    let sent = coordinate_effects(remotes, coordinates, fresh_only, remotes.len());
    assert forall|k: int| 0 <= k < sent.len() implies #[trigger] addressee(sent[k]) != Some(
        entity,
    ) by {
        if addressee(sent[k]) == Some(entity) {
            assert(is_due(remotes[entity.index as int], coordinates, fresh_only));
        }
    }
}

/// Once the coordinates went out, sending them out again tells nobody.
pub proof fn lemma_nobody_is_told_twice(world: WorldModel, fresh_only: bool, upto: nat)
    requires
        upto <= world.remotes.len(),
    ensures
        coordinate_effects(
            after_telling(world, false).remotes,
            world.coordinates,
            fresh_only,
            upto,
        ).len() == 0,
    decreases upto,
{
    if upto > 0 {
        lemma_nobody_is_told_twice(world, fresh_only, (upto - 1) as nat);
    }
}

/// A step of the fit tells the peers only news: coordinates go out only if
/// the step changed them, they are the new ones, no peer is told twice,
/// and a peer that was told them before is not told again. Updates are
/// numbered in order.
pub proof fn lemma_step_tells_news_once(world: WorldModel, outcome: SolverOutcome)
    requires
        world.remotes.len() <= usize::MAX,
    ensures
        ({
            let after = after_step(world, outcome);
            let sent = coordinate_effects(world.remotes, after.coordinates, false, world.remotes.len());
            &&& after.iteration >= world.iteration
            &&& improves(world, outcome) ==> {
                &&& after.coordinates != world.coordinates
                &&& forall|k: int|
                    0 <= k < sent.len() ==> #[trigger] sent[k] == notify_coordinates(
                        addressee(sent[k])->Some_0,
                        after.coordinates,
                    ) && world.remotes[addressee(sent[k])->Some_0.index as int].told_coordinates
                        != Some(after.coordinates)
                &&& forall|j: int, k: int|
                    0 <= j < k < sent.len() ==> #[trigger] addressee(sent[j]) != #[trigger] addressee(
                        sent[k],
                    )
            }
            &&& !improves(world, outcome) ==> after.coordinates == world.coordinates
        }),
{
    let after = after_step(world, outcome);
    lemma_coordinates_go_out_once(world.remotes, after.coordinates, false, world.remotes.len());
}

/// What a session established since the systems last ran is told: the
/// node's own coordinates, which are finite, once; and no other remote is
/// told anything then.
pub proof fn lemma_new_sessions_are_told_once(world: WorldModel)
    requires
        world.well_formed(),
        world.remotes.len() <= usize::MAX,
    ensures
        ({
            let sent = coordinate_effects(world.remotes, world.coordinates, true, world.remotes.len());
            &&& world.coordinates.finite()
            &&& after_telling(world, true).coordinates == world.coordinates
            &&& forall|k: int|
                0 <= k < sent.len() ==> {
                    let to = addressee(#[trigger] sent[k])->Some_0;
                    &&& sent[k] == notify_coordinates(to, world.coordinates)
                    &&& world.remotes[to.index as int].session
                    &&& world.remotes[to.index as int].session_added
                }
            &&& forall|j: int, k: int|
                0 <= j < k < sent.len() ==> #[trigger] addressee(sent[j]) != #[trigger] addressee(
                    sent[k],
                )
            &&& forall|i: int|
                0 <= i < world.remotes.len() && is_due(
                    #[trigger] world.remotes[i],
                    world.coordinates,
                    true,
                ) ==> after_telling(world, true).remotes[i].told_coordinates == Some(
                    world.coordinates,
                )
        }),
{
    lemma_coordinates_go_out_once(world.remotes, world.coordinates, true, world.remotes.len());
}

/// No remote is older than the oldest.
pub proof fn lemma_max_age_bounds(remotes: Seq<RemoteModel>, now: Timestamp, upto: nat, index: int)
    requires
        0 <= index < upto,
    ensures
        age(remotes[index], now) <= max_age(remotes, now, upto),
        max_age(remotes, now, upto) <= u64::MAX,
    decreases upto,
{
    if index < upto - 1 {
        lemma_max_age_bounds(remotes, now, (upto - 1) as nat, index);
    } else if upto > 1 {
        lemma_max_age_bounds(remotes, now, (upto - 1) as nat, 0);
    }
}

/// A weight is at most one: no remote's freshness exceeds the sum of all.
pub proof fn lemma_freshness_within_sum(
    remotes: Seq<RemoteModel>,
    now: Timestamp,
    oldest: nat,
    upto: nat,
    index: int,
)
    requires
        0 <= index < upto,
    ensures
        freshness(remotes[index], now, oldest) <= freshness_sum(remotes, now, oldest, upto),
    decreases upto,
{
    if index < upto - 1 {
        lemma_freshness_within_sum(remotes, now, oldest, (upto - 1) as nat, index);
    }
}

/// The weights sum to one: after the weights were computed, the numerators
/// of the remotes with measurements add up to the common denominator.
pub proof fn lemma_weights_sum_to_one(remotes: Seq<RemoteModel>, now: Timestamp, upto: nat)
    requires
        upto <= remotes.len(),
        freshness_sum(remotes, now, max_age(remotes, now, remotes.len()), remotes.len()) > 0,
    ensures
        ({
            let oldest = max_age(remotes, now, remotes.len());
            let total = freshness_sum(remotes, now, oldest, remotes.len());
            &&& numerator_sum(reweighted(remotes, now), upto) == freshness_sum(
                remotes,
                now,
                oldest,
                upto,
            )
            &&& forall|i: int|
                0 <= i < remotes.len() && remotes[i].latency_metrics is Some ==> (
                #[trigger] reweighted(remotes, now)[i]).weight.denominator == total as u128
        }),
    decreases upto,
{
    let oldest = max_age(remotes, now, remotes.len());
    if upto > 0 {
        lemma_weights_sum_to_one(remotes, now, (upto - 1) as nat);
        if remotes.len() > 0 {
            lemma_max_age_bounds(remotes, now, remotes.len(), 0);
        }
        assert(freshness(remotes[upto - 1], now, oldest) <= oldest);
    }
}

} // verus!
