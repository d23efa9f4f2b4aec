//! Error taxonomy of the crate.
//!
//! `HandshakeError` is fatal to one connection attempt or session: the caller
//! must close the underlying transport connection. `StoreError` and
//! `ValidationError` are recoverable: they are swallowed by the gossip relay
//! so that a failing metadata store or an invalid announcement never tears
//! down an otherwise healthy peer session.

use vstd::prelude::*;

verus! {

/// Fatal to the specific connection attempt or session; the caller must
/// treat the underlying transport connection as unusable and close it.
#[derive(Clone, Copy, Debug, PartialEq, Eq, Structural)]
pub enum HandshakeError {
    /// The peer identity is not a well-formed public key.
    InvalidIdentity,
    /// A live session for this identity already exists (new connections are
    /// rejected, the old session is kept).
    AlreadyConnected,
    /// The socket descriptor is already bound to a session.
    DescriptorInUse,
    /// No session is bound to the socket descriptor.
    UnknownDescriptor,
    /// Undecodable wire input from the peer.
    MalformedInput,
}

/// Metadata-persistence failure; logged and swallowed by message processing.
#[derive(Clone, Copy, Debug, PartialEq, Eq, Structural)]
pub enum StoreError {
    /// The store currently refuses writes.
    ReadOnly,
}

/// Topology-cache rejection of an announcement or update; logged and
/// swallowed by the gossip relay.
#[derive(Clone, Copy, Debug, PartialEq, Eq, Structural)]
pub enum ValidationError {
    /// A node announcement names a node no known channel touches.
    UnknownNode,
    /// A channel announcement repeats a short channel id already recorded.
    DuplicateChannel,
    /// A channel update names a short channel id never announced.
    UnknownChannel,
}

/// Failure of the on-chain existence check for an announced channel.
#[derive(Clone, Copy, Debug, PartialEq, Eq, Structural)]
pub enum UtxoCheckError {
    /// The transaction funding the channel is not known.
    UnknownTransaction,
}

} // verus!
