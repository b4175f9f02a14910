//! The traversal router: passes a packet on toward a coordinate.
//!
//! The router keeps no state. A packet for this node is delivered; any other
//! goes to the peer whose outgoing coordinate scores highest against the
//! destination. The score of a peer is the inner product of the two
//! vectors, which the embedding program computes.

use crate::coordinates::bits_are_finite;
use crate::coordinates::is_finite;
use crate::coordinates::SIGN_MASK;
use crate::net::Entity;
use crate::packet::NodePacket;
use crate::packet::TraversalPacket;
use crate::session::SessionAction;
use crate::world::send_packet;
use crate::world::NodeEffect;
use crate::world::RemoteModel;
use crate::world::RouteCandidate;
use crate::world::World;
use crate::world::WorldModel;
use vstd::prelude::*;

verus! {

/// A number that orders bit patterns as the numbers they stand for are
/// ordered: a pattern with the sign bit set comes before every pattern
/// without, patterns without it go by their magnitude, and patterns with it
/// go against their magnitude.
pub open spec fn order_key(bits: u64) -> u64 {
    if bits & SIGN_MASK == 0 {
        bits | SIGN_MASK
    } else {
        !bits
    }
}

/// The key by which scores are ordered.
pub fn score_key(bits: u64) -> (key: u64)
    ensures
        key == order_key(bits),
{
    if bits & SIGN_MASK == 0 {
        bits | SIGN_MASK
    } else {
        !bits
    }
}

/// A peer with its score against a destination.
#[derive(Clone, Copy, Debug, PartialEq, Eq)]
pub struct ScoredCandidate {
    pub entity: Entity,
    /// The bit pattern of the score.
    pub score: u64,
}

/// Whether the peer at `index` is the one to choose: its score is finite,
/// no finite score is higher, and every finite score before it is lower.
pub open spec fn is_best(scored: Seq<ScoredCandidate>, index: int) -> bool {
    &&& 0 <= index < scored.len()
    &&& is_finite(scored[index].score)
    &&& forall|j: int|
        0 <= j < scored.len() && is_finite(#[trigger] scored[j].score) ==> order_key(
            scored[j].score,
        ) <= order_key(scored[index].score)
    &&& forall|j: int|
        0 <= j < index && is_finite(#[trigger] scored[j].score) ==> order_key(scored[j].score)
            < order_key(scored[index].score)
}

/// Whether a remote can be handed a packet to pass on: it has a session and
/// reported coordinates.
pub open spec fn can_relay(remote: RemoteModel) -> bool {
    remote.session && remote.coordinates is Some
}

/// The peers among the first `upto` remotes that can be handed a packet.
pub open spec fn route_candidates(remotes: Seq<RemoteModel>, upto: nat) -> Seq<RouteCandidate>
    decreases upto,
{
    if upto == 0 {
        Seq::empty()
    } else {
        let index = (upto - 1) as nat;
        let earlier = route_candidates(remotes, index);
        if can_relay(remotes[index as int]) {
            earlier.push(
                RouteCandidate {
                    entity: Entity { index: index as usize },
                    out_coord: remotes[index as int].coordinates->Some_0.out_coord,
                },
            )
        } else {
            earlier
        }
    }
}

/// Whether `effects` is what the router makes of a traversal packet that
/// came in from `entity`: delivery if this node is the recipient; otherwise
/// an offer of the peers that can relay, or nothing if there is none.
pub open spec fn routes(
    world: WorldModel,
    effects: Seq<NodeEffect>,
    entity: Entity,
    packet: TraversalPacket,
) -> bool {
    if packet.recipient == world.node_id {
        effects == seq![NodeEffect::Deliver { entity, packet }]
    } else {
        let candidates = route_candidates(world.remotes, world.remotes.len());
        if candidates.len() == 0 {
            effects.len() == 0
        } else {
            &&& effects.len() == 1
            &&& effects[0] matches NodeEffect::Route { packet: routed, candidates: offered }
            &&& routed == packet
            &&& offered@ == candidates
        }
    }
}

/// The system of routing.
pub struct RoutingSystem {}

impl RoutingSystem {
    /// The peers that can be handed a packet to pass on.
    pub fn candidates(world: &World) -> (candidates: Vec<RouteCandidate>)
        ensures
            candidates@ == route_candidates(world@.remotes, world@.remotes.len()),
    {
        let mut candidates: Vec<RouteCandidate> = Vec::new();
        let mut i: usize = 0;
        while i < world.remotes.len()
            invariant
                i <= world.remotes@.len(),
                candidates@ == route_candidates(world@.remotes, i as nat),
            decreases world.remotes@.len() - i,
        {
            if world.remotes[i].session {
                if let Some(coordinates) = world.remotes[i].coordinates {
                    candidates.push(
                        RouteCandidate {
                            entity: Entity { index: i },
                            out_coord: coordinates.out_coord,
                        },
                    );
                }
            }
            i += 1;
        }
        candidates
    }

    /// Handles a traversal packet that came in from `entity`.
    ///
    /// A packet whose recipient is this node is delivered, at once and
    /// whatever its destination says. Any other packet is to be passed on
    /// to one of the peers that can relay; if there is none the packet is
    /// dropped.
    pub fn handle_packet(world: &World, entity: Entity, packet: TraversalPacket) -> (effects: Vec<
        NodeEffect,
    >)
        ensures
            routes(world@, effects@, entity, packet),
    {
        let mut effects: Vec<NodeEffect> = Vec::new();
        if packet.recipient.same(&world.config.node_id) {
            effects.push(NodeEffect::Deliver { entity, packet });
        } else {
            let candidates = Self::candidates(world);
            if candidates.len() > 0 {
                effects.push(NodeEffect::Route { packet, candidates });
            }
        }
        effects
    }

    /// Chooses the peer with the highest finite score; among equals, the
    /// first. `None` exactly if no score is finite.
    pub fn choose_next_hop(scored: &Vec<ScoredCandidate>) -> (chosen: Option<Entity>)
        ensures
            match chosen {
                Some(entity) => exists|index: int|
                    #[trigger] is_best(scored@, index) && scored@[index].entity == entity,
                None => forall|j: int| 0 <= j < scored@.len() ==> !is_finite(#[trigger] scored@[j].score),
            },
    {
        let mut best: Option<usize> = None;
        let mut i: usize = 0;
        while i < scored.len()
            invariant
                i <= scored@.len(),
                match best {
                    Some(index) => is_best(scored@.subrange(0, i as int), index as int),
                    None => forall|j: int| 0 <= j < i ==> !is_finite(#[trigger] scored@[j].score),
                },
            decreases scored@.len() - i,
        {
            if bits_are_finite(scored[i].score) {
                match best {
                    Some(index) => {
                        if score_key(scored[i].score) > score_key(scored[index].score) {
                            best = Some(i);
                        }
                    },
                    None => {
                        best = Some(i);
                    },
                }
            }
            i += 1;
        }
        assert(scored@.subrange(0, i as int) =~= scored@);
        match best {
            Some(index) => Some(scored[index].entity),
            None => None,
        }
    }

    /// Passes `packet` on to the peer that `choose_next_hop` chooses among
    /// the scored candidates; the packet is dropped if it chooses none.
    pub fn forward(packet: TraversalPacket, scored: &Vec<ScoredCandidate>) -> (effect: Option<
        NodeEffect,
    >)
        ensures
            match effect {
                Some(sent) => exists|index: int|
                    #[trigger] is_best(scored@, index) && sent == send_packet(
                        scored@[index].entity,
                        NodePacket::Traversal(packet),
                    ),
                None => forall|j: int| 0 <= j < scored@.len() ==> !is_finite(#[trigger] scored@[j].score),
            },
    {
        match Self::choose_next_hop(scored) {
            Some(entity) => Some(
                NodeEffect::SessionAction {
                    entity,
                    action: SessionAction::Packet(NodePacket::Traversal(packet)),
                },
            ),
            None => None,
        }
    }
}

/// The key orders patterns by sign and magnitude, and tells any two
/// patterns apart.
pub proof fn lemma_order_key_orders(a: u64, b: u64)
    ensures
        order_key(a) == order_key(b) <==> a == b,
        a & SIGN_MASK == 0 && b & SIGN_MASK == 0 ==> (order_key(a) < order_key(b) <==> a < b),
        a & SIGN_MASK != 0 && b & SIGN_MASK != 0 ==> (order_key(a) < order_key(b) <==> a > b),
        a & SIGN_MASK != 0 && b & SIGN_MASK == 0 ==> order_key(a) < order_key(b),
{
    assert(((if a & 0x8000_0000_0000_0000 == 0 {
        a | 0x8000_0000_0000_0000
    } else {
        !a
    }) == (if b & 0x8000_0000_0000_0000 == 0 {
        b | 0x8000_0000_0000_0000
    } else {
        !b
    })) <==> a == b) by (bit_vector);
    assert(a & 0x8000_0000_0000_0000 == 0 && b & 0x8000_0000_0000_0000 == 0 ==> ((a
        | 0x8000_0000_0000_0000) < (b | 0x8000_0000_0000_0000) <==> a < b)) by (bit_vector);
    assert(!a < !b <==> a > b) by (bit_vector);
    assert(a & 0x8000_0000_0000_0000 != 0 && b & 0x8000_0000_0000_0000 == 0 ==> !a < (b
        | 0x8000_0000_0000_0000)) by (bit_vector);
}

/// At most one peer is the one to choose.
pub proof fn lemma_best_is_unique(scored: Seq<ScoredCandidate>, a: int, b: int)
    requires
        is_best(scored, a),
        is_best(scored, b),
    ensures
        a == b,
{
}

} // verus!
