//! The kinds of session that a node can hold with a remote: over a direct
//! connection, by traversal toward a coordinate, or through a chain of
//! proxies.

use vstd::prelude::*;

verus! {

/// Address of a node on the underlying network.
pub type NetAddr = u128;

/// Identifier of a session, shared by its two ends.
pub type SessionID = u128;

/// Position of a node in routing space.
#[derive(Clone, Copy, Debug, PartialEq, Eq, Structural)]
pub struct RouteCoord {
    pub x: i64,
    pub y: i64,
}

/// Position of a remote in the node's list of remotes.
pub type RemoteIdx = usize;

/// Whether each of the two ends of a direct session counts the other as a
/// peer.
#[derive(Clone, Copy, Debug, PartialEq, Eq, Structural)]
pub struct PeerStatus {
    pub bits: u8,
}

/// The bit of `PeerStatus` that says that we count the remote as a peer.
pub const PEER_OUTGOING: u8 = 0b01;

/// The bit of `PeerStatus` that says that the remote counts us as a peer.
pub const PEER_INCOMING: u8 = 0b10;

impl PeerStatus {
    /// Neither end counts the other as a peer.
    pub open spec fn none() -> PeerStatus {
        PeerStatus { bits: 0 }
    }

    /// Whether all bits of `flag` are set.
    pub open spec fn has(self, flag: u8) -> bool {
        self.bits & flag == flag
    }

    /// The status with the bits of `flag` set or cleared.
    pub open spec fn with(self, flag: u8, value: bool) -> PeerStatus {
        PeerStatus {
            bits: if value {
                self.bits | flag
            } else {
                self.bits & !flag
            },
        }
    }

    /// Whether all bits of `flag` are set.
    pub fn contains(&self, flag: u8) -> (present: bool)
        ensures
            present == self.has(flag),
    {
        self.bits & flag == flag
    }

    /// Sets or clears the bits of `flag`.
    pub fn set(&mut self, flag: u8, value: bool)
        ensures
            *final(self) == old(self).with(flag, value),
    {
        if value {
            self.bits = self.bits | flag;
        } else {
            self.bits = self.bits & !flag;
        }
    }
}

/// A session over a direct connection.
#[derive(Clone, Copy, Debug, PartialEq, Eq, Structural)]
pub struct DirectSession {
    /// Network address of the remote.
    pub net_addr: NetAddr,
    /// Which of the two ends counts the other as a peer.
    pub peer_status: PeerStatus,
}

impl DirectSession {
    /// A direct session with the remote at `net_addr`; neither end is a
    /// peer of the other yet.
    pub fn new(net_addr: NetAddr) -> (session: SessionType)
        ensures
            session == SessionType::Direct(
                DirectSession { net_addr, peer_status: PeerStatus::none() },
            ),
    {
        SessionType::Direct(DirectSession { net_addr, peer_status: PeerStatus { bits: 0 } })
    }

    /// Records the rank that the remote gave us among its peers. The
    /// largest `usize` stands for no rank: the remote then does not count us
    /// as a peer.
    pub fn record_peer_notify(&mut self, rank: usize)
        ensures
            final(self).net_addr == old(self).net_addr,
            final(self).peer_status == old(self).peer_status.with(PEER_INCOMING, rank != usize::MAX),
            final(self).peer_status.has(PEER_INCOMING) == (rank != usize::MAX),
            final(self).peer_status.has(PEER_OUTGOING) == old(self).peer_status.has(PEER_OUTGOING),
    {
        let ghost before = self.peer_status.bits;
        self.peer_status.set(PEER_INCOMING, rank != usize::MAX);
        assert((before | 0b10u8) & 0b10u8 == 0b10u8) by (bit_vector);
        assert((before & !0b10u8) & 0b10u8 != 0b10u8) by (bit_vector);
        assert(((before | 0b10u8) & 0b01u8 == 0b01u8) == (before & 0b01u8 == 0b01u8))
            by (bit_vector);
        assert(((before & !0b10u8) & 0b01u8 == 0b01u8) == (before & 0b01u8 == 0b01u8))
            by (bit_vector);
    }

    /// Makes the remote a peer of ours, or ends that.
    pub fn set_peer(&mut self, toggle: bool)
        ensures
            final(self).net_addr == old(self).net_addr,
            final(self).peer_status == old(self).peer_status.with(PEER_OUTGOING, toggle),
            final(self).peer_status.has(PEER_OUTGOING) == toggle,
            final(self).peer_status.has(PEER_INCOMING) == old(self).peer_status.has(PEER_INCOMING),
    {
        let ghost before = self.peer_status.bits;
        self.peer_status.set(PEER_OUTGOING, toggle);
        assert((before | 0b01u8) & 0b01u8 == 0b01u8) by (bit_vector);
        assert((before & !0b01u8) & 0b01u8 != 0b01u8) by (bit_vector);
        assert(((before | 0b01u8) & 0b10u8 == 0b10u8) == (before & 0b10u8 == 0b10u8))
            by (bit_vector);
        assert(((before & !0b01u8) & 0b10u8 == 0b10u8) == (before & 0b10u8 == 0b10u8))
            by (bit_vector);
    }

    /// Whether we count the remote as a peer.
    pub fn is_peer(&self) -> (peer: bool)
        ensures
            peer == self.peer_status.has(PEER_OUTGOING),
    {
        self.peer_status.contains(PEER_OUTGOING)
    }
}

/// A session whose packets traverse the network toward a coordinate.
#[derive(Clone, Copy, Debug, PartialEq, Eq, Structural)]
pub struct TraversedSession {
    /// Coordinate of the remote.
    pub route_coord: RouteCoord,
}

impl TraversedSession {
    /// A traversed session with the remote at `route_coord`.
    pub fn new(route_coord: RouteCoord) -> (session: SessionType)
        ensures
            session == SessionType::Traversed(TraversedSession { route_coord }),
    {
        SessionType::Traversed(TraversedSession { route_coord })
    }
}

/// A session through a chain of proxies.
#[derive(Clone, Debug, PartialEq, Eq)]
pub struct RoutedSession {
    /// Coordinate of the remote.
    pub route_coord: RouteCoord,
    /// The sessions with the proxies, nearest first.
    pub proxy_nodes: Vec<SessionID>,
}

/// A session of one of the three kinds.
#[derive(Clone, Debug, PartialEq, Eq)]
pub enum SessionType {
    Direct(DirectSession),
    Traversed(TraversedSession),
    Routed(RoutedSession),
}

impl SessionType {
    /// A direct session with the remote at `net_addr`.
    pub fn direct(net_addr: NetAddr) -> (session: Self)
        ensures
            session == SessionType::Direct(
                DirectSession { net_addr, peer_status: PeerStatus::none() },
            ),
    {
        DirectSession::new(net_addr)
    }

    /// A traversed session with the remote at `route_coord`.
    pub fn traversed(route_coord: RouteCoord) -> (session: Self)
        ensures
            session == SessionType::Traversed(TraversedSession { route_coord }),
    {
        TraversedSession::new(route_coord)
    }

    /// A session with the remote at `route_coord` through `proxy_nodes`.
    pub fn routed(route_coord: RouteCoord, proxy_nodes: Vec<SessionID>) -> (session: Self)
        ensures
            session == SessionType::Routed(RoutedSession { route_coord, proxy_nodes }),
    {
        SessionType::Routed(RoutedSession { route_coord, proxy_nodes })
    }
}

/// What the node tells a session worker of its own state.
#[derive(Clone, Copy, Debug, PartialEq, Eq, Structural)]
pub struct NodeSessionInfo {
    pub total_remotes: usize,
    pub remote_idx: RemoteIdx,
    pub is_active: bool,
}

} // verus!
