//! The system that keeps latency measurements flowing.

use crate::latency_metrics::LatencyMetrics;
use crate::latency_metrics::MetricsModel;
use crate::net::Entity;
use crate::ping::Micros;
use crate::ping::Timestamp;
use crate::session::SessionAction;
use crate::world::lemma_remotes_stay_well_formed;
use crate::world::lemma_update_keeps_well_formed;
use crate::world::NodeEffect;
use crate::world::RemoteModel;
use crate::world::World;
use crate::world::WorldModel;
use vstd::prelude::*;

verus! {

/// Asks the session of `entity` for `count` more measurements.
pub open spec fn ask_for_pings(entity: Entity, count: usize) -> NodeEffect {
    NodeEffect::SessionAction { entity, action: SessionAction::SetDesiredPingCount(count) }
}

/// The metrics of a remote after a round trip of `latency` was measured at
/// `now`: the first measurement creates them.
pub open spec fn measured(remote: RemoteModel, latency: Micros, now: Timestamp) -> RemoteModel {
    RemoteModel {
        latency_metrics: Some(
            match remote.latency_metrics {
                Some(metrics) => metrics.registered(latency, now),
                None => MetricsModel::first(latency, now),
            },
        ),
        ..remote
    }
}

/// What is asked of the sessions established since the systems last ran,
/// among the first `upto` remotes: one measurement each.
pub open spec fn setup_effects(remotes: Seq<RemoteModel>, upto: nat) -> Seq<NodeEffect>
    decreases upto,
{
    if upto == 0 {
        Seq::empty()
    } else {
        let index = (upto - 1) as nat;
        let earlier = setup_effects(remotes, index);
        if remotes[index as int].session && remotes[index as int].session_added {
            earlier.push(ask_for_pings(Entity { index: index as usize }, 1))
        } else {
            earlier
        }
    }
}

/// The number of measurements to ask a session for at `now`, if any: what
/// the metrics want; or, while they wait for pings asked for earlier and no
/// measurement arrived for a second, the number they wait for, which nudges
/// the session to ping again.
pub open spec fn ping_request(metrics: MetricsModel, now: Timestamp) -> Option<usize> {
    match metrics.wanted(now) {
        Some(n) => if n > 0 {
            Some(n as usize)
        } else {
            None
        },
        None => if metrics.stale(now) {
            Some(metrics.pending as usize)
        } else {
            None
        },
    }
}

/// Whether the system looks at this remote: it has a session and metrics.
pub open spec fn is_measured(remote: RemoteModel) -> bool {
    remote.session && remote.latency_metrics is Some
}

/// A remote after the system looked at it at `now`.
pub open spec fn polled(remote: RemoteModel, now: Timestamp) -> RemoteModel {
    if is_measured(remote) {
        RemoteModel {
            latency_metrics: Some(remote.latency_metrics->Some_0.polled(now)),
            ..remote
        }
    } else {
        remote
    }
}

/// What is asked of the sessions of the first `upto` remotes at `now`.
pub open spec fn notify_effects(remotes: Seq<RemoteModel>, now: Timestamp, upto: nat) -> Seq<
    NodeEffect,
>
    decreases upto,
{
    if upto == 0 {
        Seq::empty()
    } else {
        let index = (upto - 1) as nat;
        let earlier = notify_effects(remotes, now, index);
        let remote = remotes[index as int];
        if is_measured(remote) && ping_request(remote.latency_metrics->Some_0, now) is Some {
            earlier.push(
                ask_for_pings(
                    Entity { index: index as usize },
                    ping_request(remote.latency_metrics->Some_0, now)->Some_0,
                ),
            )
        } else {
            earlier
        }
    }
}

/// The system of latency metrics.
pub struct LatencyMetricsSystem {}

impl LatencyMetricsSystem {
    /// Registers a round trip to `entity` that took `latency`, measured at
    /// `now`. A handle that names no remote is ignored.
    pub fn handle_packet(world: &mut World, entity: Entity, latency: Micros, now: Timestamp)
        requires
            old(world).well_formed(),
        ensures
            final(world).well_formed(),
            final(world).config == old(world).config,
            final(world)@ == if old(world)@.contains(entity) {
                WorldModel {
                    metrics_changed: true,
                    ..old(world)@.with_remote(
                        entity,
                        measured(old(world)@.remotes[entity.index as int], latency, now),
                    )
                }
            } else {
                old(world)@
            },
    {
        if entity.index >= world.remotes.len() {
            return ;
        }
        assert(old(world)@.remotes[entity.index as int].well_formed());
        match &mut world.remotes[entity.index].latency_metrics {
            Some(metrics) => {
                metrics.register_latency(latency, now);
            },
            None => {
                world.remotes[entity.index].latency_metrics = Some(LatencyMetrics::new(latency, now));
            },
        }
        world.metrics_changed = true;
        proof {
            let expected = old(world)@.with_remote(
                entity,
                measured(old(world)@.remotes[entity.index as int], latency, now),
            );
            assert(world@.remotes =~= expected.remotes);
            lemma_update_keeps_well_formed(
                old(world)@,
                entity,
                measured(old(world)@.remotes[entity.index as int], latency, now),
            );
        }
    }

    /// Asks every session established since the systems last ran for one
    /// measurement.
    pub fn session_setup(world: &World) -> (effects: Vec<NodeEffect>)
        ensures
            effects@ == setup_effects(world@.remotes, world@.remotes.len()),
    {
        let mut effects: Vec<NodeEffect> = Vec::new();
        let mut i: usize = 0;
        while i < world.remotes.len()
            invariant
                i <= world.remotes@.len(),
                effects@ == setup_effects(world@.remotes, i as nat),
            decreases world.remotes@.len() - i,
        {
            if world.remotes[i].session && world.remotes[i].session_added {
                effects.push(
                    NodeEffect::SessionAction {
                        entity: Entity { index: i },
                        action: SessionAction::SetDesiredPingCount(1),
                    },
                );
            }
            i += 1;
        }
        effects
    }

    /// Asks the metrics of every remote with a session how many
    /// measurements they want at `now`, and asks the session for them.
    pub fn notify_session_to_ping(world: &mut World, now: Timestamp) -> (effects: Vec<NodeEffect>)
        requires
            old(world).well_formed(),
        ensures
            final(world).well_formed(),
            final(world).config == old(world).config,
            final(world)@ == (WorldModel {
                remotes: Seq::new(
                    old(world)@.remotes.len(),
                    |i: int| polled(old(world)@.remotes[i], now),
                ),
                ..old(world)@
            }),
            effects@ == notify_effects(old(world)@.remotes, now, old(world)@.remotes.len()),
    {
        let mut effects: Vec<NodeEffect> = Vec::new();
        let ghost before = world@;
        let mut i: usize = 0;
        while i < world.remotes.len()
            invariant
                before == old(world)@,
                before.well_formed(),
                world.config == old(world).config,
                i <= world.remotes@.len(),
                world.remotes@.len() == before.remotes.len(),
                world@ == (WorldModel { remotes: world@.remotes, ..before }),
                forall|j: int| 0 <= j < i ==> #[trigger] world@.remotes[j] == polled(before.remotes[j], now),
                forall|j: int|
                    i <= j < before.remotes.len() ==> #[trigger] world@.remotes[j] == before.remotes[j],
                effects@ == notify_effects(before.remotes, now, i as nat),
            decreases world.remotes@.len() - i,
        {
            let ghost current = world@;
            assert(current.remotes[i as int] == before.remotes[i as int]);
            assert(before.remotes[i as int].well_formed());
            if world.remotes[i].session {
                if let Some(metrics) = &mut world.remotes[i].latency_metrics {
                    let request: Option<usize> = match metrics.how_many_more_pings(now) {
                        Some(pings) => if pings > 0 {
                            Some(pings)
                        } else {
                            None
                        },
                        None => if metrics.is_stale(now) {
                            Some(metrics.pending_pings())
                        } else {
                            None
                        },
                    };
                    if let Some(count) = request {
                        effects.push(
                            NodeEffect::SessionAction {
                                entity: Entity { index: i },
                                action: SessionAction::SetDesiredPingCount(count),
                            },
                        );
                    }
                }
            }
            assert(world@.remotes[i as int] == polled(before.remotes[i as int], now));
            assert forall|j: int| 0 <= j < i + 1 implies #[trigger] world@.remotes[j] == polled(
                before.remotes[j],
                now,
            ) by {
                if j < i {
                    assert(world@.remotes[j] == current.remotes[j]);
                }
            }
            assert forall|j: int| i + 1 <= j < before.remotes.len() implies #[trigger] world@.remotes[j]
                == before.remotes[j] by {
                assert(world@.remotes[j] == current.remotes[j]);
            }
            i += 1;
        }
        proof {
            let expected = Seq::new(before.remotes.len(), |i: int| polled(before.remotes[i], now));
            assert(world@.remotes =~= expected);
            lemma_remotes_stay_well_formed(before, world@);
        }
        effects
    }
}

} // verus!
