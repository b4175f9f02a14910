//! The rules of one session with a remote.
//!
//! A session worker reads packets from its connection and actions from the
//! node. For each of them the rules here say what to write to the connection
//! and what to report to the node. The worker itself, with its stream and
//! channels, belongs to the embedding program.

use crate::frame::decode_frame;
use crate::frame::frame_parse;
use crate::frame::Frame;
use crate::net::Address;
use crate::net::Entity;
use crate::net::NodeID;
use crate::packet::NodePacket;
use crate::packet::PingingNodePacket;
use crate::packet::TraversalPacket;
use crate::ping::Micros;
use crate::ping::PingID;
use crate::ping::PingSlot;
use crate::ping::PingTracker;
use crate::ping::Timestamp;
use crate::ping::TrackerModel;
use vstd::prelude::*;

verus! {

/// A session does not send an unsolicited ping sooner than this after the
/// last one.
pub const PING_MIN_INTERVAL: Micros = 200_000;

/// What a session reports to the node.
#[derive(Clone, Debug, PartialEq, Eq)]
pub enum SessionEvent {
    /// A packet from the remote.
    Packet(NodePacket),
    /// A round trip to the remote took this long.
    LatencyMeasurement(Micros),
    /// A packet for another node, to be passed on.
    Traversal(TraversalPacket),
}

/// An event together with the remote whose session reported it.
#[derive(Clone, Debug, PartialEq, Eq)]
pub struct EntitySessionEvent {
    pub entity: Entity,
    pub event: SessionEvent,
}

/// What the node asks of a session.
#[derive(Clone, Debug, PartialEq, Eq)]
pub enum SessionAction {
    /// Collect this many more latency measurements.
    SetDesiredPingCount(usize),
    /// Send a packet to the remote.
    Packet(NodePacket),
}

/// Why a session ended.
#[derive(Clone, Copy, Debug, PartialEq, Eq, Structural)]
pub enum SessionError {
    /// The remote sent what is not a packet.
    MalformedPacket,
    /// The connection failed.
    ConnectionError,
    /// The node no longer listens to this session.
    SendError,
}

/// What is needed to connect to a remote again.
#[derive(Clone, Debug, PartialEq, Eq)]
pub struct SessionInfo {
    pub net_address: Address,
    pub remote_pub_key: Option<Vec<u8>>,
    pub persistent_state: Option<Vec<u8>>,
}

/// What a session worker has to do next.
#[derive(Clone, Debug, PartialEq, Eq)]
pub enum SessionOutput {
    /// Write the packet to the connection; flush at once if `flush` is set.
    Send { packet: PingingNodePacket, flush: bool },
    /// Report the event to the node.
    Event(EntitySessionEvent),
    /// The traversal packet has arrived at its recipient: open it and hand
    /// the packet inside to `handle_packet`.
    Unwrap(TraversalPacket),
}

/// The mathematical content of a session's bookkeeping.
pub struct SessionModel {
    /// The remote that the session talks to.
    pub entity: Entity,
    /// The identity of the local node.
    pub node_id: NodeID,
    pub tracker: TrackerModel,
    pub ping_countdown: nat,
    pub last_ping: Option<Timestamp>,
}

/// The state of one session.
#[derive(Clone, Debug)]
pub struct SessionState {
    ping_tracker: PingTracker<64>,
    entity_id: Entity,
    ping_countdown: usize,
    last_ping: Option<Timestamp>,
    self_node_id: NodeID,
}

/// Whether enough time has passed since the last ping to send another
/// unasked.
pub open spec fn may_ping(last_ping: Option<Timestamp>, now: Timestamp) -> bool {
    match last_ping {
        None => true,
        Some(at) => now > at && now - at > PING_MIN_INTERVAL,
    }
}

impl View for SessionState {
    type V = SessionModel;

    closed spec fn view(&self) -> SessionModel {
        SessionModel {
            entity: self.entity_id,
            node_id: self.self_node_id,
            tracker: self.ping_tracker@,
            ping_countdown: self.ping_countdown as nat,
            last_ping: self.last_ping,
        }
    }
}

/// Looks for the next packet in the bytes received so far: the range of its
/// body, or `None` while more bytes are needed. Bytes that are no frame end
/// the session.
pub fn next_frame(buffer: &[u8]) -> (result: Result<Option<(usize, usize)>, SessionError>)
    ensures
        match frame_parse(buffer@) {
            Frame::Complete { start, end } => result == Ok::<Option<(usize, usize)>, SessionError>(
                Some((start, end)),
            ) && start <= end <= buffer@.len(),
            Frame::Incomplete => result == Ok::<Option<(usize, usize)>, SessionError>(None),
            Frame::Malformed(_) => result == Err::<Option<(usize, usize)>, SessionError>(
                SessionError::MalformedPacket,
            ),
        },
{
    match decode_frame(buffer) {
        Frame::Complete { start, end } => Ok(Some((start, end))),
        Frame::Incomplete => Ok(None),
        Frame::Malformed(_) => Err(SessionError::MalformedPacket),
    }
}

impl SessionState {
    /// The remote that this session talks to.
    pub open spec fn entity(&self) -> Entity {
        self@.entity
    }

    /// The identity of the local node.
    pub open spec fn node_id(&self) -> NodeID {
        self@.node_id
    }

    pub closed spec fn well_formed(&self) -> bool {
        self.ping_tracker.well_formed()
    }

    /// The event `event`, reported by this session.
    pub open spec fn reports(&self, event: SessionEvent) -> SessionOutput {
        SessionOutput::Event(EntitySessionEvent { entity: self.entity(), event })
    }

    /// The state of a session that has just been established.
    pub fn new(entity_id: Entity, self_node_id: NodeID) -> (state: Self)
        ensures
            state.well_formed(),
            state.entity() == entity_id,
            state.node_id() == self_node_id,
            state@.ping_countdown == 0,
            state@.last_ping.is_none(),
            state@.tracker.well_formed(64),
            state@.tracker.next_free_slot == 0,
            state@.tracker.slots == Seq::new(64, |i: int| (PingSlot::Empty, 0u8)),
    {
        SessionState {
            ping_tracker: PingTracker::new(),
            entity_id,
            ping_countdown: 0,
            last_ping: None,
            self_node_id,
        }
    }

    /// The number of latency measurements still wanted.
    pub fn ping_countdown(&self) -> (n: usize)
        ensures
            n == self@.ping_countdown,
    {
        self.ping_countdown
    }

    /// Handles a packet read from the connection at time `now`.
    ///
    /// An acknowledgement that matches an outstanding ping is reported as a
    /// latency measurement and counts against the wanted measurements. A
    /// ping of the remote is answered at once; the answer carries a ping of
    /// our own exactly if measurements are still wanted. The packet inside,
    /// if any, is handled last, as `handle_packet` says.
    pub fn handle_ping_packet(&mut self, pinging_packet: PingingNodePacket, now: Timestamp) -> (outputs:
        Vec<SessionOutput>)
        requires
            old(self).well_formed(),
        ensures
            final(self).well_formed(),
            final(self).entity() == old(self).entity(),
            final(self).node_id() == old(self).node_id(),
            ({
                let before = old(self)@;
                let measured = match pinging_packet.ack_ping {
                    Some(ack) => before.tracker.measured(ack, now),
                    None => None,
                };
                let acked = match pinging_packet.ack_ping {
                    Some(ack) => before.tracker.after_record(ack),
                    None => before.tracker,
                };
                let countdown = if measured.is_some() && before.ping_countdown > 0 {
                    (before.ping_countdown - 1) as nat
                } else {
                    before.ping_countdown
                };
                let replying = pinging_packet.ping_id.is_some();
                let pinging = replying && countdown > 0;
                let n_measured: int = if measured.is_some() {
                    1
                } else {
                    0
                };
                let n_reply: int = if replying {
                    1
                } else {
                    0
                };
                let n_packet: int = if pinging_packet.packet.is_some() {
                    1
                } else {
                    0
                };
                &&& final(self)@.ping_countdown == countdown
                &&& final(self)@.tracker == if pinging {
                    acked.after_gen(64, now)
                } else {
                    acked
                }
                &&& final(self)@.last_ping == if replying {
                    Some(now)
                } else {
                    before.last_ping
                }
                &&& outputs@.len() == n_measured + n_reply + n_packet
                &&& measured matches Some(duration) ==> outputs@[0] == old(self).reports(
                    SessionEvent::LatencyMeasurement(duration),
                )
                &&& replying ==> outputs@[n_measured] == (SessionOutput::Send {
                    packet: PingingNodePacket {
                        packet: None,
                        ping_id: if pinging {
                            Some(acked.issued(64))
                        } else {
                            None
                        },
                        ack_ping: pinging_packet.ping_id,
                    },
                    flush: true,
                })
                &&& pinging_packet.packet matches Some(packet) ==> outputs@[n_measured + n_reply]
                    == old(self).routed(packet)
            }),
    {
        let mut outputs: Vec<SessionOutput> = Vec::new();
        let PingingNodePacket { packet, ping_id, ack_ping } = pinging_packet;
        if let Some(ack) = ack_ping {
            if let Some(duration) = self.ping_tracker.record_unique_id(ack, now) {
                self.ping_countdown = self.ping_countdown.saturating_sub(1);
                outputs.push(
                    SessionOutput::Event(
                        EntitySessionEvent {
                            entity: self.entity_id,
                            event: SessionEvent::LatencyMeasurement(duration),
                        },
                    ),
                );
            }
        }
        if let Some(remote_ping) = ping_id {
            let own_ping: Option<PingID> = if self.ping_countdown != 0 {
                Some(self.ping_tracker.gen_unique_id(now))
            } else {
                None
            };
            outputs.push(
                SessionOutput::Send {
                    packet: PingingNodePacket {
                        packet: None,
                        ping_id: own_ping,
                        ack_ping: Some(remote_ping),
                    },
                    flush: true,
                },
            );
            self.last_ping = Some(now);
        }
        if let Some(inner) = packet {
            let routed = self.handle_packet(inner);
            outputs.push(routed);
        }
        outputs
    }

    /// What becomes of a packet from the remote.
    pub open spec fn routed(&self, packet: NodePacket) -> SessionOutput {
        match packet {
            NodePacket::Traversal(traversal) => if traversal.recipient == self.node_id() {
                SessionOutput::Unwrap(traversal)
            } else {
                self.reports(SessionEvent::Traversal(traversal))
            },
            other => self.reports(SessionEvent::Packet(other)),
        }
    }

    /// Handles a packet from the remote.
    ///
    /// A traversal packet for this node is to be opened here; one for
    /// another node goes to the node's router. Every other packet is
    /// reported to the node as it is.
    pub fn handle_packet(&self, packet: NodePacket) -> (output: SessionOutput)
        ensures
            output == self.routed(packet),
    {
        match packet {
            NodePacket::Traversal(traversal) => {
                if traversal.recipient.same(&self.self_node_id) {
                    SessionOutput::Unwrap(traversal)
                } else {
                    SessionOutput::Event(
                        EntitySessionEvent {
                            entity: self.entity_id,
                            event: SessionEvent::Traversal(traversal),
                        },
                    )
                }
            },
            other => SessionOutput::Event(
                EntitySessionEvent { entity: self.entity_id, event: SessionEvent::Packet(other) },
            ),
        }
    }

    /// Handles an action of the node at time `now`.
    ///
    /// A packet is sent as it is, with no ping attached. A number of wanted
    /// measurements replaces the current one; if it is positive and no ping
    /// went out during the last 200 ms, a ping is sent at once.
    pub fn handle_session_action(&mut self, action: SessionAction, now: Timestamp) -> (output:
        Option<SessionOutput>)
        requires
            old(self).well_formed(),
        ensures
            final(self).well_formed(),
            final(self).entity() == old(self).entity(),
            final(self).node_id() == old(self).node_id(),
            match action {
                SessionAction::Packet(packet) => {
                    &&& final(self)@ == old(self)@
                    &&& output == Some(
                        SessionOutput::Send {
                            packet: PingingNodePacket {
                                packet: Some(packet),
                                ping_id: None,
                                ack_ping: None,
                            },
                            flush: false,
                        },
                    )
                },
                SessionAction::SetDesiredPingCount(ping_count) => {
                    let pinging = ping_count > 0 && may_ping(old(self)@.last_ping, now);
                    &&& final(self)@.ping_countdown == ping_count
                    &&& final(self)@.tracker == if pinging {
                        old(self)@.tracker.after_gen(64, now)
                    } else {
                        old(self)@.tracker
                    }
                    &&& final(self)@.last_ping == if pinging {
                        Some(now)
                    } else {
                        old(self)@.last_ping
                    }
                    &&& output == if pinging {
                        Some(
                            SessionOutput::Send {
                                packet: PingingNodePacket {
                                    packet: None,
                                    ping_id: Some(old(self)@.tracker.issued(64)),
                                    ack_ping: None,
                                },
                                flush: true,
                            },
                        )
                    } else {
                        None
                    }
                },
            },
    {
        match action {
            SessionAction::Packet(packet) => Some(
                SessionOutput::Send {
                    packet: PingingNodePacket { packet: Some(packet), ping_id: None, ack_ping: None },
                    flush: false,
                },
            ),
            SessionAction::SetDesiredPingCount(ping_count) => {
                self.ping_countdown = ping_count;
                let due: bool = match self.last_ping {
                    None => true,
                    Some(at) => now.saturating_sub(at) > PING_MIN_INTERVAL,
                };
                if ping_count != 0 && due {
                    let ping_id: PingID = self.ping_tracker.gen_unique_id(now);
                    self.last_ping = Some(now);
                    Some(
                        SessionOutput::Send {
                            packet: PingingNodePacket {
                                packet: None,
                                ping_id: Some(ping_id),
                                ack_ping: None,
                            },
                            flush: true,
                        },
                    )
                } else {
                    None
                }
            },
        }
    }
}

} // verus!
