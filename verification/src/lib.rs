//! Peer-session management and gossip relay for a peer-to-peer financial
//! messaging node.
//!
//! The crate multiplexes many transport sockets into one protocol engine,
//! exposing connect/disconnect/read/write/timer operations with explicit
//! error semantics, and relays topology announcements into a topology cache
//! while persisting alias/color metadata only for peers the node already
//! knows.

pub mod bytes;
pub mod errors;
pub mod identity;
pub mod messages;
pub mod metadata;
pub mod session;
pub mod gossip;
pub mod topology;
pub mod wire;

use vstd::prelude::*;

verus! {

/// Length in bytes of a compressed public key identifying a peer.
pub const PEER_ID_LEN: usize = 33;

} // verus!
