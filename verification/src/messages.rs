//! Decoded protocol messages the core dispatches on.
//!
//! Message encoding and decoding against the wire lives in [`crate::wire`];
//! this module holds the decoded shapes and their mathematical views.

use vstd::prelude::*;
use crate::identity::PeerIdentity;
use crate::PEER_ID_LEN;

verus! {

/// Length in bytes of the alias label in a node announcement.
pub const ALIAS_LEN: usize = 32;

/// Length in bytes of the color value in a node announcement.
pub const RGB_LEN: usize = 3;

/// Length in bytes of a short channel id.
pub const SCID_LEN: usize = 8;

/// View of a node announcement.
#[verifier::ext_equal]
pub struct NodeAnnouncementV {
    pub node_id: Seq<u8>,
    pub alias: Seq<u8>,
    pub rgb: Seq<u8>,
    pub addresses: Seq<u8>,
}

/// A signed record announcing a node's alias, color and reachable addresses.
///
/// Transient: never stored itself, only the derived alias/color metadata is
/// persisted. The address list is carried opaquely, encoded as it arrived.
#[derive(Clone, Debug)]
pub struct NodeAnnouncementMsg {
    pub node_id: PeerIdentity,
    pub alias: Vec<u8>,
    pub rgb: Vec<u8>,
    pub addresses: Vec<u8>,
}

impl View for NodeAnnouncementMsg {
    type V = NodeAnnouncementV;

    open spec fn view(&self) -> NodeAnnouncementV {
        NodeAnnouncementV {
            node_id: self.node_id@,
            alias: self.alias@,
            rgb: self.rgb@,
            addresses: self.addresses@,
        }
    }
}

impl NodeAnnouncementMsg {
    pub open spec fn wf(self) -> bool {
        self.node_id.wf() && self.alias@.len() == ALIAS_LEN && self.rgb@.len() == RGB_LEN
    }
}

/// View of a channel announcement.
#[verifier::ext_equal]
pub struct ChannelAnnouncementV {
    pub node_a: Seq<u8>,
    pub node_b: Seq<u8>,
    pub scid: Seq<u8>,
}

/// A signed record announcing an edge of the topology graph between two
/// nodes, named by its short channel id.
#[derive(Clone, Debug)]
pub struct ChannelAnnouncementMsg {
    pub node_a: PeerIdentity,
    pub node_b: PeerIdentity,
    pub scid: Vec<u8>,
}

impl View for ChannelAnnouncementMsg {
    type V = ChannelAnnouncementV;

    open spec fn view(&self) -> ChannelAnnouncementV {
        ChannelAnnouncementV { node_a: self.node_a@, node_b: self.node_b@, scid: self.scid@ }
    }
}

impl ChannelAnnouncementMsg {
    pub open spec fn wf(self) -> bool {
        self.node_a.wf() && self.node_b.wf() && self.scid@.len() == SCID_LEN
    }
}

/// A signed update of the routing parameters of an announced channel.
#[derive(Clone, Debug)]
pub struct ChannelUpdateMsg {
    pub scid: Vec<u8>,
}

impl View for ChannelUpdateMsg {
    type V = Seq<u8>;

    open spec fn view(&self) -> Seq<u8> {
        self.scid@
    }
}

impl ChannelUpdateMsg {
    pub open spec fn wf(self) -> bool {
        self.scid@.len() == SCID_LEN
    }
}

/// A feature-bit vector advertised during capability negotiation.
///
/// This node advertises the minimal set: no optional routing capabilities.
#[derive(Clone, Debug)]
pub struct Features {
    pub bits: Vec<u8>,
}

impl View for Features {
    type V = Seq<u8>;

    open spec fn view(&self) -> Seq<u8> {
        self.bits@
    }
}

impl Features {
    /// The empty feature set.
    pub fn empty() -> (r: Features)
        ensures
            r@.len() == 0,
    {
        Features { bits: Vec::new() }
    }

    pub fn is_empty(&self) -> (r: bool)
        ensures
            r == (self@.len() == 0),
    {
        self.bits.len() == 0
    }
}

/// The capability-negotiation message a peer sends when it connects.
#[derive(Clone, Debug)]
pub struct InitMsg {
    pub features: Features,
}

/// A bulk-sync request for all channels announced in a block range.
#[derive(Clone, Debug)]
pub struct QueryChannelRangeMsg {
    pub first_block: u32,
    pub number_of_blocks: u32,
}

/// A bulk-sync request for the announcements behind given short channel ids.
#[derive(Clone, Debug)]
pub struct QueryShortChannelIdsMsg {
    pub scids: Vec<Vec<u8>>,
}

/// A peer's reply to a channel-range query.
#[derive(Clone, Debug)]
pub struct ReplyChannelRangeMsg {
    pub first_block: u32,
    pub number_of_blocks: u32,
    pub sync_complete: bool,
}

/// A peer's notice that it finished serving a short-channel-ids query.
#[derive(Clone, Debug)]
pub struct ReplyShortChannelIdsEndMsg {
    pub full_information: bool,
}

} // verus!
