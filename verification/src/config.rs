//! Settings of the application that runs on the node.

use vstd::prelude::*;

verus! {

/// Settings of the application.
#[derive(Clone, Debug, PartialEq, Eq)]
pub struct Config {
    pub dev_mode: bool,
    pub pubsub_topic: String,
}

impl Config {
    /// The settings for development: development mode is on, and the topic
    /// is "chat".
    pub fn development() -> (config: Config)
        ensures
            config.dev_mode,
            config.pubsub_topic@ == "chat"@,
    {
        Config { dev_mode: true, pubsub_topic: "chat".to_owned() }
    }
}

/// Settings of the node as the application sees them.
#[derive(Clone, Debug, PartialEq, Eq)]
pub struct DitherConfig {
    pub dev_mode: bool,
    pub pubsub_topic: String,
}

impl DitherConfig {
    /// The settings for development: development mode is on, and the topic
    /// is "chat".
    pub fn development() -> (config: DitherConfig)
        ensures
            config.dev_mode,
            config.pubsub_topic@ == "chat"@,
    {
        DitherConfig { dev_mode: true, pubsub_topic: "chat".to_owned() }
    }
}

/// The name under which the protocol is negotiated.
pub open spec fn protocol_name() -> Seq<char> {
    "/dither/1.0.0"@
}

/// The protocol of the node, as offered when a connection is upgraded.
#[derive(Clone, Copy, Debug, PartialEq, Eq, Structural)]
pub struct DitherProtocol {}

impl DitherProtocol {
    /// The protocol.
    pub fn new() -> (protocol: DitherProtocol)
        ensures
            protocol == (DitherProtocol {  }),
    {
        DitherProtocol {  }
    }

    /// The name under which the protocol is negotiated.
    pub fn protocol_info(&self) -> (name: &'static str)
        ensures
            name@ == protocol_name(),
    {
        "/dither/1.0.0"
    }
}

} // verus!
