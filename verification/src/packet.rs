//! The packets that nodes exchange.

use crate::coordinates::Coordinates;
use crate::coordinates::NetworkCoord;
use crate::net::Address;
use crate::net::NodeID;
use crate::ping::PingID;
use vstd::prelude::*;

verus! {

/// Packets of peer discovery.
#[derive(Clone, Debug, PartialEq, Eq)]
pub enum DiscoveryPacket {
    /// Asks the receiver for peers to connect to.
    RequestPeers,
    /// Answer to `RequestPeers`: peers and the addresses they can be reached at.
    PeerList(Vec<(NodeID, Address)>),
    /// Answer to `RequestPeers` where peers were told of the requester
    /// instead: how many were told, under which request number.
    PeersNotified { number: usize, request_id: u64 },
    /// Tells a peer that the named node is looking for peers.
    WantPeer { requester_id: NodeID, requester_addr: Address, request_id: u64 },
    /// Tells the receiver an address at which the sender can be reached.
    NotifyPublicAddress(Address),
    /// Asks the receiver at which address it sees the sender.
    RequestSeenAddress,
    /// Answer to `RequestSeenAddress`.
    NotifySeenAddress(Address),
}

/// Packets of the network-coordinate system.
#[derive(Clone, Debug, PartialEq, Eq)]
pub enum NCSystemPacket {
    /// Asks the receiver for its coordinates.
    RequestNetworkCoordinates,
    /// Tells the receiver the sender's coordinates.
    NotifyNetworkCoordinates(Coordinates),
}

/// A packet on its way to the node at a coordinate.
#[derive(Clone, Debug, PartialEq, Eq)]
pub struct TraversalPacket {
    /// Incoming coordinate of the node that the packet is for.
    pub destination: NetworkCoord,
    /// Identity of that node.
    pub recipient: NodeID,
    /// The packet to deliver there, sealed for the recipient.
    pub encrypted_packet: Vec<u8>,
}

/// Packets that are sent between nodes.
#[derive(Clone, Debug, PartialEq, Eq)]
pub enum NodePacket {
    DiscoveryPacket(DiscoveryPacket),
    NCSystemPacket(NCSystemPacket),
    Traversal(TraversalPacket),
    /// Raw data.
    Data(Vec<u8>),
}

/// What goes on the wire: a packet, if any, with the ping bookkeeping that
/// rides along.
#[derive(Clone, Debug, PartialEq, Eq)]
pub struct PingingNodePacket {
    /// The packet being sent.
    pub packet: Option<NodePacket>,
    /// Set if the sender wants this ping acknowledged at once.
    pub ping_id: Option<PingID>,
    /// The ping of the receiver that this packet acknowledges.
    pub ack_ping: Option<PingID>,
}

} // verus!
