//! Core of a peer-to-peer overlay node, written without I/O.
//!
//! Every state machine here is a plain value: the embedding program owns the
//! sockets, the clock and the tasks, feeds inputs in and carries the returned
//! effects out.

pub mod config;
pub mod coordinates;
pub mod discovery;
pub mod frame;
pub mod latency_metrics;
pub mod latency_system;
pub mod nc_system;
pub mod net;
pub mod node;
pub mod packet;
pub mod ping;
pub mod routing;
pub mod session;
pub mod session_type;
pub mod world;
