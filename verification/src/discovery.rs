//! Peer discovery: exchange of peer lists and learning of public addresses.

use crate::net::address_is_valid;
use crate::net::Address;
use crate::net::Entity;
use crate::net::ListenerConfig;
use crate::net::Network;
use crate::net::NodeID;
use crate::packet::DiscoveryPacket;
use crate::packet::NodePacket;
use crate::session::SessionAction;
use crate::world::lemma_remotes_stay_well_formed;
use crate::world::lemma_update_keeps_well_formed;
use crate::world::send_packet;
use crate::world::NodeEffect;
use crate::world::RemoteModel;
use crate::world::World;
use crate::world::WorldModel;
use vstd::prelude::*;

verus! {

/// The most peers that one answer to a request for peers names or notifies.
pub const MAX_PEERS_PER_REQUEST: usize = 20;

/// Whether a peer is offered to the remote `requester`: its public address
/// is known, and it is not the requester itself.
pub open spec fn is_offered(remotes: Seq<RemoteModel>, requester: int, index: int) -> bool {
    index != requester && remotes[index].public_address is Some
}

/// The peers among the first `upto` remotes that are offered to
/// `requester`, with their public addresses; no more than twenty.
pub open spec fn peer_list(remotes: Seq<RemoteModel>, requester: int, upto: nat) -> Seq<
    (NodeID, Address),
>
    decreases upto,
{
    if upto == 0 {
        Seq::empty()
    } else {
        let index = (upto - 1) as int;
        let earlier = peer_list(remotes, requester, (upto - 1) as nat);
        if earlier.len() < MAX_PEERS_PER_REQUEST && is_offered(remotes, requester, index) {
            earlier.push((remotes[index].id, remotes[index].public_address->Some_0))
        } else {
            earlier
        }
    }
}

/// The hint that tells the peer `entity` of a node looking for peers.
pub open spec fn want_peer(
    entity: Entity,
    requester_id: NodeID,
    requester_addr: Address,
    request_id: u64,
) -> NodeEffect {
    send_packet(
        entity,
        NodePacket::DiscoveryPacket(
            DiscoveryPacket::WantPeer { requester_id, requester_addr, request_id },
        ),
    )
}

/// The hints sent on behalf of `requester` to the peers among the first
/// `upto` remotes: to those with a session, but for the requester itself,
/// and to no more than twenty.
pub open spec fn want_peer_effects(
    remotes: Seq<RemoteModel>,
    requester: int,
    requester_addr: Address,
    request_id: u64,
    upto: nat,
) -> Seq<NodeEffect>
    decreases upto,
{
    if upto == 0 {
        Seq::empty()
    } else {
        let index = (upto - 1) as int;
        let earlier = want_peer_effects(
            remotes,
            requester,
            requester_addr,
            request_id,
            (upto - 1) as nat,
        );
        if earlier.len() < MAX_PEERS_PER_REQUEST && index != requester && remotes[index].session {
            earlier.push(
                want_peer(
                    Entity { index: index as usize },
                    remotes[requester].id,
                    requester_addr,
                    request_id,
                ),
            )
        } else {
            earlier
        }
    }
}

/// What answers a request for peers by notifying peers: the hints, and
/// then the count of them for the requester. A requester whose address is
/// not known gets no answer.
pub open spec fn notified_effects(world: WorldModel, entity: Entity, request_id: u64) -> Seq<
    NodeEffect,
> {
    match world.remotes[entity.index as int].session_info {
        Some(info) => {
            let hints = want_peer_effects(
                world.remotes,
                entity.index as int,
                info.net_address,
                request_id,
                world.remotes.len(),
            );
            hints.push(
                send_packet(
                    entity,
                    NodePacket::DiscoveryPacket(
                        DiscoveryPacket::PeersNotified { number: hints.len() as usize, request_id },
                    ),
                ),
            )
        },
        None => Seq::empty(),
    }
}

/// The connection requested for a peer that a remote named.
pub open spec fn connect_to(id: NodeID, address: Address) -> NodeEffect {
    NodeEffect::Connect { remote_id: id, address, pub_key: None, persistent_state: None }
}

/// The connections requested for the first `upto` entries of a peer list:
/// one for every entry whose identity belongs to no known remote.
pub open spec fn connect_effects(world: WorldModel, list: Seq<(NodeID, Address)>, upto: nat) -> Seq<
    NodeEffect,
>
    decreases upto,
{
    if upto == 0 {
        Seq::empty()
    } else {
        let index = (upto - 1) as int;
        let earlier = connect_effects(world, list, (upto - 1) as nat);
        if world.knows(list[index].0) {
            earlier
        } else {
            earlier.push(connect_to(list[index].0, list[index].1))
        }
    }
}

/// What is sent to the sessions established since the systems last ran,
/// among the first `upto` remotes: a request for peers each.
pub open spec fn setup_effects(remotes: Seq<RemoteModel>, upto: nat) -> Seq<NodeEffect>
    decreases upto,
{
    if upto == 0 {
        Seq::empty()
    } else {
        let index = (upto - 1) as nat;
        let earlier = setup_effects(remotes, index);
        if remotes[index as int].session && remotes[index as int].session_added {
            earlier.push(
                send_packet(
                    Entity { index: index as usize },
                    NodePacket::DiscoveryPacket(DiscoveryPacket::RequestPeers),
                ),
            )
        } else {
            earlier
        }
    }
}

/// The world after the remote `entity` told us an address. An empty address
/// is ignored.
pub open spec fn after_public_address(world: WorldModel, entity: Entity, addr: Address) -> WorldModel {
    if addr@.len() > 0 {
        world.with_remote(
            entity,
            RemoteModel { public_address: Some(addr), ..world.remotes[entity.index as int] },
        )
    } else {
        world
    }
}

/// The world after the remote `entity` told us where it sees us. An empty
/// address is ignored.
pub open spec fn after_seen_address(world: WorldModel, entity: Entity, addr: Address) -> WorldModel {
    if addr@.len() > 0 {
        world.with_remote(
            entity,
            RemoteModel {
                seen_addr: Some(addr),
                address_pending: true,
                ..world.remotes[entity.index as int]
            },
        )
    } else {
        world
    }
}

/// The public address of this node after a prediction came in: an address
/// known before stays, whatever is predicted; an empty prediction counts
/// for nothing.
pub open spec fn resolved_address(known: Option<Address>, predicted: Option<Address>) -> Option<
    Address,
> {
    match known {
        Some(addr) => Some(addr),
        None => match predicted {
            Some(addr) => if addr@.len() > 0 {
                Some(addr)
            } else {
                None
            },
            None => None,
        },
    }
}

/// Whether the remote waits for an answer about addresses: it has a
/// session, and its connection was opened, or the address it sees us at
/// learned, since the systems last ran.
pub open spec fn awaits_address(remote: RemoteModel) -> bool {
    remote.session && remote.address_pending
}

/// The public address of this node once the remote was answered, where
/// `known` was the address before and `predicted` what the transport made
/// of the address that the remote sees us at.
pub open spec fn known_after_remote(
    remote: RemoteModel,
    known: Option<Address>,
    predicted: Option<Address>,
) -> Option<Address> {
    if awaits_address(remote) && remote.seen_addr is Some {
        resolved_address(known, predicted)
    } else {
        known
    }
}

/// The public address of this node once the first `upto` remotes were
/// answered.
pub open spec fn known_after(
    remotes: Seq<RemoteModel>,
    known: Option<Address>,
    predictions: Seq<Option<Address>>,
    upto: nat,
) -> Option<Address>
    decreases upto,
{
    if upto == 0 {
        known
    } else {
        let index = (upto - 1) as int;
        known_after_remote(
            remotes[index],
            known_after(remotes, known, predictions, (upto - 1) as nat),
            predictions[index],
        )
    }
}

/// What a waiting remote is sent, where `known` is the public address of
/// this node once the remote's view of it was taken in: the address, or, if
/// there is none and the remote has not said where it sees us, the question
/// where that is.
pub open spec fn address_answer(remote: RemoteModel, entity: Entity, known: Option<Address>) -> Seq<
    NodeEffect,
> {
    if !awaits_address(remote) {
        Seq::empty()
    } else {
        match known {
            Some(addr) => seq![
                send_packet(
                    entity,
                    NodePacket::DiscoveryPacket(DiscoveryPacket::NotifyPublicAddress(addr)),
                ),
            ],
            None => if remote.seen_addr is Some {
                Seq::empty()
            } else {
                seq![
                    send_packet(
                        entity,
                        NodePacket::DiscoveryPacket(DiscoveryPacket::RequestSeenAddress),
                    ),
                ]
            },
        }
    }
}

/// A remote after it was answered: once it was told our public address
/// nothing is owed to it.
pub open spec fn answered(remote: RemoteModel, known: Option<Address>) -> RemoteModel {
    if awaits_address(remote) && known is Some {
        RemoteModel { conn_receiver: false, ..remote }
    } else {
        remote
    }
}

/// What the first `upto` remotes are sent about addresses.
pub open spec fn address_effects(
    remotes: Seq<RemoteModel>,
    known: Option<Address>,
    predictions: Seq<Option<Address>>,
    upto: nat,
) -> Seq<NodeEffect>
    decreases upto,
{
    if upto == 0 {
        Seq::empty()
    } else {
        let index = (upto - 1) as int;
        address_effects(remotes, known, predictions, (upto - 1) as nat) + address_answer(
            remotes[index],
            Entity { index: index as usize },
            known_after(remotes, known, predictions, upto),
        )
    }
}

/// The world after the waiting remotes were answered, given what the
/// transport predicted for each remote.
pub open spec fn after_answers(before: WorldModel, predictions: Seq<Option<Address>>) -> WorldModel {
    let count = before.remotes.len();
    WorldModel {
        known_pub_addr: known_after(before.remotes, before.known_pub_addr, predictions, count),
        remotes: Seq::new(
            count,
            |i: int|
                answered(
                    before.remotes[i],
                    known_after(
                        before.remotes,
                        before.known_pub_addr,
                        predictions,
                        (i + 1) as nat,
                    ),
                ),
        ),
        ..before
    }
}

/// The first of the addresses that the transport predicted, if any.
pub open spec fn first_of(candidates: Seq<Address>) -> Option<Address> {
    if candidates.len() > 0 {
        Some(candidates[0])
    } else {
        None
    }
}

/// Whether `predicted` is what the transport `Net` made of the address
/// `seen` under the listener configuration `config`: the first address of
/// an answer that it gave when asked with the two.
pub open spec fn transport_predicts<Net: Network>(
    seen: Address,
    config: ListenerConfig,
    predicted: Option<Address>,
) -> bool {
    exists|candidates: Vec<Address>|
        #[trigger] call_ensures(Net::predict_public_addresses, (&seen, &config), candidates)
            && predicted == first_of(candidates@)
}

/// Whether the predictions are those of the transport `Net`: for every
/// waiting remote that has said where it sees us, what the transport made
/// of that address and the node's listener configuration; for every other
/// remote, none, as the transport is not asked on its account.
pub open spec fn predicted_by<Net: Network>(
    world: WorldModel,
    predictions: Seq<Option<Address>>,
) -> bool {
    &&& predictions.len() == world.remotes.len()
    &&& forall|i: int|
        0 <= i < world.remotes.len() ==> if awaits_address(world.remotes[i])
            && world.remotes[i].seen_addr is Some {
            transport_predicts::<Net>(
                world.remotes[i].seen_addr->Some_0,
                world.listener_config,
                #[trigger] predictions[i],
            )
        } else {
            predictions[i] is None
        }
}

/// Whether `after` and `effects` are what answering the waiting remotes of
/// `before` leads to, where `predictions` holds what the transport `Net`
/// predicted for each remote.
pub open spec fn answers_with<Net: Network>(
    before: WorldModel,
    after: WorldModel,
    effects: Seq<NodeEffect>,
    predictions: Seq<Option<Address>>,
) -> bool {
    let count = before.remotes.len();
    &&& predicted_by::<Net>(before, predictions)
    &&& effects == address_effects(before.remotes, before.known_pub_addr, predictions, count)
    &&& after == after_answers(before, predictions)
}

/// Whether `after` and `effects` are what handling a discovery packet from
/// `entity` leads to.
pub open spec fn handles_packet(
    before: WorldModel,
    after: WorldModel,
    effects: Seq<NodeEffect>,
    entity: Entity,
    packet: DiscoveryPacket,
) -> bool {
    &&& !before.contains(entity) ==> after == before && effects.len() == 0
    &&& before.contains(entity) ==> match packet {
        DiscoveryPacket::RequestPeers => {
            &&& after == before
            &&& if before.notify_peers {
                exists|request_id: u64|
                    effects == notified_effects(before, entity, request_id)
            } else {
                &&& effects.len() == 1
                &&& effects[0] matches NodeEffect::SessionAction {
                    entity: to,
                    action: SessionAction::Packet(
                        NodePacket::DiscoveryPacket(DiscoveryPacket::PeerList(list)),
                    ),
                }
                &&& to == entity
                &&& list@ == peer_list(
                    before.remotes,
                    entity.index as int,
                    before.remotes.len(),
                )
            }
        },
        DiscoveryPacket::PeerList(list) => {
            &&& after == before
            &&& effects == connect_effects(before, list@, list@.len())
        },
        DiscoveryPacket::PeersNotified { .. } => {
            &&& after == before
            &&& effects.len() == 0
        },
        DiscoveryPacket::WantPeer { requester_id, requester_addr, .. } => {
            &&& after == before
            &&& effects == if before.knows(requester_id) {
                Seq::<NodeEffect>::empty()
            } else {
                seq![connect_to(requester_id, requester_addr)]
            }
        },
        DiscoveryPacket::NotifyPublicAddress(addr) => {
            &&& after == after_public_address(before, entity, addr)
            &&& effects.len() == 0
        },
        DiscoveryPacket::RequestSeenAddress => {
            &&& after == before
            &&& effects == match before.remotes[entity.index as int].session_info {
                Some(info) => seq![
                    send_packet(
                        entity,
                        NodePacket::DiscoveryPacket(
                            DiscoveryPacket::NotifySeenAddress(info.net_address),
                        ),
                    ),
                ],
                None => Seq::<NodeEffect>::empty(),
            }
        },
        DiscoveryPacket::NotifySeenAddress(addr) => {
            &&& after == after_seen_address(before, entity, addr)
            &&& effects.len() == 0
        },
    }
}

/// Calls `rand::random`, which draws a number from the thread's generator.
/// Nothing is known of the number.
#[verifier::external_body]
fn random_request_id() -> u64 {
    rand::random::<u64>()
}

/// The system of peer discovery.
pub struct DiscoverySystem {}

impl DiscoverySystem {
    /// The list of peers that answers a request of `entity`.
    pub fn collect_peer_list(world: &World, entity: Entity) -> (list: Vec<(NodeID, Address)>)
        ensures
            list@ == peer_list(world@.remotes, entity.index as int, world@.remotes.len()),
            list@.len() <= MAX_PEERS_PER_REQUEST,
    {
        let mut list: Vec<(NodeID, Address)> = Vec::new();
        let mut i: usize = 0;
        while i < world.remotes.len()
            invariant
                i <= world.remotes@.len(),
                list@ == peer_list(world@.remotes, entity.index as int, i as nat),
                list@.len() <= MAX_PEERS_PER_REQUEST,
            decreases world.remotes@.len() - i,
        {
            if list.len() < MAX_PEERS_PER_REQUEST && i != entity.index {
                if let Some(addr) = &world.remotes[i].public_address {
                    list.push((world.remotes[i].id, addr.clone()));
                }
            }
            i += 1;
        }
        list
    }

    /// Answers a request for peers of `entity` by telling peers of it,
    /// under the request number `request_id`.
    pub fn notify_peers(world: &World, entity: Entity, request_id: u64) -> (effects: Vec<NodeEffect>)
        requires
            world@.contains(entity),
        ensures
            effects@ == notified_effects(world@, entity, request_id),
    {
        let mut effects: Vec<NodeEffect> = Vec::new();
        let requester_id: NodeID = world.remotes[entity.index].id;
        match &world.remotes[entity.index].session_info {
            None => effects,
            Some(info) => {
                let mut i: usize = 0;
                while i < world.remotes.len()
                    invariant
                        i <= world.remotes@.len(),
                        world@.contains(entity),
                        requester_id == world@.remotes[entity.index as int].id,
                        effects@ == want_peer_effects(
                            world@.remotes,
                            entity.index as int,
                            info.net_address,
                            request_id,
                            i as nat,
                        ),
                        effects@.len() <= MAX_PEERS_PER_REQUEST,
                    decreases world.remotes@.len() - i,
                {
                    if effects.len() < MAX_PEERS_PER_REQUEST && i != entity.index
                        && world.remotes[i].session {
                        effects.push(
                            NodeEffect::SessionAction {
                                entity: Entity { index: i },
                                action: SessionAction::Packet(
                                    NodePacket::DiscoveryPacket(
                                        DiscoveryPacket::WantPeer {
                                            requester_id,
                                            requester_addr: info.net_address.clone(),
                                            request_id,
                                        },
                                    ),
                                ),
                            },
                        );
                    }
                    i += 1;
                }
                let number: usize = effects.len();
                effects.push(
                    NodeEffect::SessionAction {
                        entity,
                        action: SessionAction::Packet(
                            NodePacket::DiscoveryPacket(
                                DiscoveryPacket::PeersNotified { number, request_id },
                            ),
                        ),
                    },
                );
                effects
            },
        }
    }

    /// Requests a connection to every peer of `list` that is not known yet.
    pub fn connect_to_peers(world: &World, list: &Vec<(NodeID, Address)>) -> (effects: Vec<NodeEffect>)
        requires
            world.well_formed(),
        ensures
            effects@ == connect_effects(world@, list@, list@.len()),
    {
        let mut effects: Vec<NodeEffect> = Vec::new();
        let mut i: usize = 0;
        while i < list.len()
            invariant
                world.well_formed(),
                i <= list@.len(),
                effects@ == connect_effects(world@, list@, i as nat),
            decreases list@.len() - i,
        {
            if world.find_entity(&list[i].0).is_none() {
                effects.push(
                    NodeEffect::Connect {
                        remote_id: list[i].0,
                        address: list[i].1.clone(),
                        pub_key: None,
                        persistent_state: None,
                    },
                );
            }
            i += 1;
        }
        effects
    }

    /// Handles a discovery packet that came from `entity`.
    ///
    /// A handle that names no remote is ignored. Otherwise:
    /// a request for peers is answered with the list of peers, or, where
    /// the node is set to notify instead, by telling peers of the requester;
    /// a list of peers leads to a connection request for every peer not yet
    /// known, and so does a hint that a node wants peers;
    /// an address that the remote can be reached at, or that it sees us at,
    /// is recorded;
    /// a request for the address we see the remote at is answered with the
    /// address of its session.
    pub fn handle_packet(world: &mut World, entity: Entity, packet: DiscoveryPacket) -> (effects:
        Vec<NodeEffect>)
        requires
            old(world).well_formed(),
        ensures
            final(world).well_formed(),
            final(world).config == old(world).config,
            handles_packet(old(world)@, final(world)@, effects@, entity, packet),
    {
        let mut effects: Vec<NodeEffect> = Vec::new();
        if entity.index >= world.remotes.len() {
            return effects;
        }
        assert(old(world)@.remotes[entity.index as int].well_formed());
        match packet {
            DiscoveryPacket::RequestPeers => {
                if world.notify_peers {
                    let request_id: u64 = random_request_id();
                    Self::notify_peers(world, entity, request_id)
                } else {
                    let list = Self::collect_peer_list(world, entity);
                    effects.push(
                        NodeEffect::SessionAction {
                            entity,
                            action: SessionAction::Packet(
                                NodePacket::DiscoveryPacket(DiscoveryPacket::PeerList(list)),
                            ),
                        },
                    );
                    effects
                }
            },
            DiscoveryPacket::PeerList(list) => Self::connect_to_peers(world, &list),
            DiscoveryPacket::PeersNotified { .. } => effects,
            DiscoveryPacket::WantPeer { requester_id, requester_addr, .. } => {
                if world.find_entity(&requester_id).is_none() {
                    effects.push(
                        NodeEffect::Connect {
                            remote_id: requester_id,
                            address: requester_addr,
                            pub_key: None,
                            persistent_state: None,
                        },
                    );
                }
                effects
            },
            DiscoveryPacket::NotifyPublicAddress(addr) => {
                if address_is_valid(&addr) {
                    world.remotes[entity.index].public_address = Some(addr);
                    proof {
                        let expected = after_public_address(old(world)@, entity, addr);
                        assert(world@.remotes =~= expected.remotes);
                        lemma_update_keeps_well_formed(
                            old(world)@,
                            entity,
                            expected.remotes[entity.index as int],
                        );
                    }
                }
                effects
            },
            DiscoveryPacket::RequestSeenAddress => {
                if let Some(info) = &world.remotes[entity.index].session_info {
                    effects.push(
                        NodeEffect::SessionAction {
                            entity,
                            action: SessionAction::Packet(
                                NodePacket::DiscoveryPacket(
                                    DiscoveryPacket::NotifySeenAddress(info.net_address.clone()),
                                ),
                            ),
                        },
                    );
                }
                effects
            },
            DiscoveryPacket::NotifySeenAddress(addr) => {
                if address_is_valid(&addr) {
                    world.remotes[entity.index].seen_addr = Some(addr);
                    world.remotes[entity.index].address_pending = true;
                    proof {
                        let expected = after_seen_address(old(world)@, entity, addr);
                        assert(world@.remotes =~= expected.remotes);
                        lemma_update_keeps_well_formed(
                            old(world)@,
                            entity,
                            expected.remotes[entity.index as int],
                        );
                    }
                }
                effects
            },
        }
    }

    /// Takes in what the transport predicts from the address that a remote
    /// sees us at. The first address learned stays.
    pub fn resolve_public_address(known: &mut Option<Address>, predicted: Option<Address>) -> (resolved:
        Option<Address>)
        ensures
            *final(known) == resolved_address(*old(known), predicted),
            resolved == *final(known),
    {
        if known.is_none() {
            if let Some(addr) = predicted {
                if address_is_valid(&addr) {
                    *known = Some(addr);
                }
            }
        }
        match known {
            Some(addr) => Some(addr.clone()),
            None => None,
        }
    }

    /// Answers the remotes that wait for an answer about addresses.
    ///
    /// Where a remote has said at which address it sees us, the transport
    /// predicts our public address from it, and the first address so learned
    /// is kept. A waiting remote is told the public address if there is one;
    /// otherwise it is asked where it sees us, unless it has said so. The
    /// transport is asked once for every waiting remote that has said where
    /// it sees us, with that address and the node's listener configuration,
    /// and the first address of its answer counts. The outcome is that of
    /// `address_effects` and `known_after` for these predictions.
    pub fn handle_conn_request<Net: Network>(world: &mut World) -> (effects: Vec<NodeEffect>)
        requires
            old(world).well_formed(),
        ensures
            final(world).well_formed(),
            final(world).config == old(world).config,
            old(world)@.known_pub_addr is Some ==> final(world)@.known_pub_addr == old(
                world,
            )@.known_pub_addr,
            exists|predictions: Seq<Option<Address>>|
                answers_with::<Net>(old(world)@, final(world)@, effects@, predictions),
    {
        let mut effects: Vec<NodeEffect> = Vec::new();
        let ghost before = world@;
        let ghost mut predictions: Seq<Option<Address>> = Seq::empty();
        let mut i: usize = 0;
        while i < world.remotes.len()
            invariant
                before == old(world)@,
                before.well_formed(),
                world.config == old(world).config,
                i <= world.remotes@.len(),
                world.remotes@.len() == before.remotes.len(),
                predictions.len() == i,
                forall|j: int|
                    0 <= j < i ==> if awaits_address(before.remotes[j])
                        && before.remotes[j].seen_addr is Some {
                        transport_predicts::<Net>(
                            before.remotes[j].seen_addr->Some_0,
                            before.listener_config,
                            #[trigger] predictions[j],
                        )
                    } else {
                        predictions[j] is None
                    },
                world@ == (WorldModel {
                    remotes: world@.remotes,
                    known_pub_addr: world@.known_pub_addr,
                    ..before
                }),
                world@.known_pub_addr matches Some(addr) ==> addr@.len() > 0,
                before.known_pub_addr is Some ==> world@.known_pub_addr == before.known_pub_addr,
                world@.known_pub_addr == known_after(
                    before.remotes,
                    before.known_pub_addr,
                    predictions,
                    i as nat,
                ),
                forall|j: int|
                    0 <= j < i ==> #[trigger] world@.remotes[j] == answered(
                        before.remotes[j],
                        known_after(
                            before.remotes,
                            before.known_pub_addr,
                            predictions,
                            (j + 1) as nat,
                        ),
                    ),
                forall|j: int|
                    i <= j < before.remotes.len() ==> #[trigger] world@.remotes[j] == before.remotes[j],
                effects@ == address_effects(
                    before.remotes,
                    before.known_pub_addr,
                    predictions,
                    i as nat,
                ),
            decreases world.remotes@.len() - i,
        {
            let ghost current = world@;
            let ghost earlier = predictions;
            assert(current.remotes[i as int] == before.remotes[i as int]);
            assert(before.remotes[i as int].well_formed());
            let mut predicted: Option<Address> = None;
            if world.remotes[i].session && world.remotes[i].address_pending {
                if let Some(seen) = &world.remotes[i].seen_addr {
                    let candidates = Net::predict_public_addresses(
                        seen,
                        &world.config.listener_config,
                    );
                    if candidates.len() > 0 {
                        predicted = Some(candidates[0].clone());
                    }
                    proof {
                        predictions = predictions.push(predicted);
                        assert(predicted == first_of(candidates@));
                        assert(transport_predicts::<Net>(
                            before.remotes[i as int].seen_addr->Some_0,
                            before.listener_config,
                            predicted,
                        ));
                    }
                    let _ = Self::resolve_public_address(&mut world.known_pub_addr, predicted);
                } else {
                    proof {
                        predictions = predictions.push(None);
                    }
                }
                match &world.known_pub_addr {
                    Some(addr) => {
                        effects.push(
                            NodeEffect::SessionAction {
                                entity: Entity { index: i },
                                action: SessionAction::Packet(
                                    NodePacket::DiscoveryPacket(
                                        DiscoveryPacket::NotifyPublicAddress(addr.clone()),
                                    ),
                                ),
                            },
                        );
                        world.remotes[i].conn_receiver = false;
                    },
                    None => {
                        if world.remotes[i].seen_addr.is_none() {
                            effects.push(
                                NodeEffect::SessionAction {
                                    entity: Entity { index: i },
                                    action: SessionAction::Packet(
                                        NodePacket::DiscoveryPacket(
                                            DiscoveryPacket::RequestSeenAddress,
                                        ),
                                    ),
                                },
                            );
                        }
                    },
                }
            } else {
                proof {
                    predictions = predictions.push(None);
                }
            }
            proof {
                assert(predictions.subrange(0, earlier.len() as int) =~= earlier);
                lemma_known_after_prefix(
                    before.remotes,
                    before.known_pub_addr,
                    earlier,
                    predictions,
                    i as nat,
                );
                assert forall|j: int| 0 <= j < i + 1 implies #[trigger] world@.remotes[j] == answered(
                    before.remotes[j],
                    known_after(before.remotes, before.known_pub_addr, predictions, (j + 1) as nat),
                ) by {
                    if j < i {
                        lemma_known_after_prefix(
                            before.remotes,
                            before.known_pub_addr,
                            earlier,
                            predictions,
                            (j + 1) as nat,
                        );
                        assert(world@.remotes[j] == current.remotes[j]);
                    }
                }
                assert forall|j: int| i + 1 <= j < before.remotes.len() implies #[trigger] world@.remotes[j]
                    == before.remotes[j] by {
                    assert(world@.remotes[j] == current.remotes[j]);
                }
                lemma_address_effects_prefix(
                    before.remotes,
                    before.known_pub_addr,
                    earlier,
                    predictions,
                    i as nat,
                );
            }
            i += 1;
        }
        proof {
            let count = before.remotes.len();
            let expected = Seq::new(
                count,
                |i: int|
                    answered(
                        before.remotes[i],
                        known_after(before.remotes, before.known_pub_addr, predictions, (i + 1) as nat),
                    ),
            );
            assert(world@.remotes =~= expected);
            lemma_remotes_stay_well_formed(before, world@);
            assert(answers_with::<Net>(before, world@, effects@, predictions));
        }
        effects
    }

    /// Sends a request for peers to every session established since the
    /// systems last ran.
    pub fn session_setup(world: &World) -> (effects: Vec<NodeEffect>)
        ensures
            effects@ == setup_effects(world@.remotes, world@.remotes.len()),
    {
        let mut effects: Vec<NodeEffect> = Vec::new();
        let mut i: usize = 0;
        while i < world.remotes.len()
            invariant
                i <= world.remotes@.len(),
                effects@ == setup_effects(world@.remotes, i as nat),
            decreases world.remotes@.len() - i,
        {
            if world.remotes[i].session && world.remotes[i].session_added {
                effects.push(
                    NodeEffect::SessionAction {
                        entity: Entity { index: i },
                        action: SessionAction::Packet(
                            NodePacket::DiscoveryPacket(DiscoveryPacket::RequestPeers),
                        ),
                    },
                );
            }
            i += 1;
        }
        effects
    }
}

/// What was done for the first remotes does not depend on the predictions
/// made for later ones.
pub proof fn lemma_known_after_prefix(
    remotes: Seq<RemoteModel>,
    known: Option<Address>,
    shorter: Seq<Option<Address>>,
    longer: Seq<Option<Address>>,
    upto: nat,
)
    requires
        upto <= shorter.len() <= longer.len(),
        longer.subrange(0, shorter.len() as int) == shorter,
    ensures
        known_after(remotes, known, longer, upto) == known_after(remotes, known, shorter, upto),
    decreases upto,
{
    if upto > 0 {
        lemma_known_after_prefix(remotes, known, shorter, longer, (upto - 1) as nat);
        assert(longer[upto - 1] == longer.subrange(0, shorter.len() as int)[upto - 1]);
    }
}

/// What was sent to the first remotes does not depend on the predictions
/// made for later ones.
pub proof fn lemma_address_effects_prefix(
    remotes: Seq<RemoteModel>,
    known: Option<Address>,
    shorter: Seq<Option<Address>>,
    longer: Seq<Option<Address>>,
    upto: nat,
)
    requires
        upto <= shorter.len() <= longer.len(),
        longer.subrange(0, shorter.len() as int) == shorter,
    ensures
        address_effects(remotes, known, longer, upto) == address_effects(
            remotes,
            known,
            shorter,
            upto,
        ),
    decreases upto,
{
    if upto > 0 {
        lemma_address_effects_prefix(remotes, known, shorter, longer, (upto - 1) as nat);
        lemma_known_after_prefix(remotes, known, shorter, longer, upto);
    }
}

/// The first public address learned wins: once an address is known, no
/// prediction changes it.
pub proof fn lemma_first_address_wins(
    remotes: Seq<RemoteModel>,
    known: Address,
    predictions: Seq<Option<Address>>,
    upto: nat,
)
    ensures
        known_after(remotes, Some(known), predictions, upto) == Some(known),
    decreases upto,
{
    if upto > 0 {
        lemma_first_address_wins(remotes, known, predictions, (upto - 1) as nat);
    }
}

} // verus!
