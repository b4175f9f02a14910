//! What the node knows of the network around it: identities, addresses and
//! the transport that the embedding program plugs in.

use vstd::prelude::*;

verus! {

/// The number of bytes of a node identity.
pub const NODE_ID_LEN: usize = 32;

/// Where a node can be reached, in the transport's own notation. A usable
/// address is not empty.
pub type Address = String;

/// Identity of a node: the hash of its public key.
#[derive(Clone, Copy, Debug, PartialEq, Eq, Hash)]
pub struct NodeID {
    pub hash: [u8; 32],
}

impl NodeID {
    /// Whether two identities are the same.
    pub fn same(&self, other: &NodeID) -> (equal: bool)
        ensures
            equal == (*self == *other),
    {
        let mut i: usize = 0;
        while i < NODE_ID_LEN
            invariant
                i <= NODE_ID_LEN,
                forall|j: int| 0 <= j < i ==> self.hash[j] == other.hash[j],
            decreases NODE_ID_LEN - i,
        {
            if self.hash[i] != other.hash[i] {
                return false;
            }
            i += 1;
        }
        assert(self.hash =~= other.hash);
        true
    }
}

/// Handle of a remote in the node's store. Handles are never reused.
#[derive(Clone, Copy, Debug, PartialEq, Eq, Structural)]
pub struct Entity {
    pub index: usize,
}

/// The keys of the local node.
#[derive(Clone, Debug, PartialEq, Eq)]
pub struct EncryptionKeys {
    pub private_key: Vec<u8>,
    pub public_key: Vec<u8>,
}

/// The addresses on which the transport accepts connections.
#[derive(Clone, Debug, PartialEq, Eq)]
pub struct ListenerConfig {
    pub listen_addrs: Vec<Address>,
}

/// An established connection, as the transport reports it. The byte stream
/// itself stays with the embedding program.
#[derive(Clone, Debug, PartialEq, Eq)]
pub struct Connection {
    /// The address that the remote was seen at.
    pub incoming_address: Address,
    pub remote_pub_key: Vec<u8>,
    pub persistent_state: Vec<u8>,
    /// Whether the local node asked for this connection.
    pub requested: bool,
}

/// The part of a transport that the node's rules consult.
pub trait Network {
    /// The addresses under which this node may be reachable, given the
    /// address that a remote saw it at. The most likely one comes first.
    fn predict_public_addresses(addr: &Address, config: &ListenerConfig) -> Vec<Address>;
}

/// Whether an address is usable.
pub fn address_is_valid(addr: &Address) -> (valid: bool)
    ensures
        valid == (addr@.len() > 0),
{
    !addr.as_str().is_empty()
}

} // verus!
