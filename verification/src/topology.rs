//! The network-topology cache: known nodes, channels and channel updates,
//! monotonically enriched by announcement processing.
//!
//! Every announcement intake appends exactly one event to `history`, whether
//! or not the cache accepts the announcement: the history is the record of
//! update calls, the `nodes`/`channels` tables the accepted state. A node
//! announcement is only recorded once some announced channel names the node,
//! so gossip about complete strangers enriches nothing.

use vstd::prelude::*;
use crate::bytes::copy_bytes;
use crate::errors::{UtxoCheckError, ValidationError};
use crate::identity::{PeerIdentity, bytes_equal, same_identity};
use crate::messages::{ChannelAnnouncementMsg, ChannelUpdateMsg, NodeAnnouncementMsg};

verus! {

/// View of a recorded node.
#[verifier::ext_equal]
pub struct NodeInfoV {
    pub node_id: Seq<u8>,
    pub alias: Seq<u8>,
    pub rgb: Seq<u8>,
    pub addresses: Seq<u8>,
}

/// Alias, color and addresses last announced for a node of the graph.
#[derive(Clone, Debug)]
pub struct NodeInfo {
    pub node_id: PeerIdentity,
    pub alias: Vec<u8>,
    pub rgb: Vec<u8>,
    pub addresses: Vec<u8>,
}

impl View for NodeInfo {
    type V = NodeInfoV;

    open spec fn view(&self) -> NodeInfoV {
        NodeInfoV {
            node_id: self.node_id@,
            alias: self.alias@,
            rgb: self.rgb@,
            addresses: self.addresses@,
        }
    }
}

/// View of a recorded channel.
#[verifier::ext_equal]
pub struct ChannelInfoV {
    pub scid: Seq<u8>,
    pub node_a: Seq<u8>,
    pub node_b: Seq<u8>,
    pub updated: bool,
}

/// An announced edge of the topology graph; `updated` records whether a
/// channel update has been applied to it.
#[derive(Clone, Debug)]
pub struct ChannelInfo {
    pub scid: Vec<u8>,
    pub node_a: PeerIdentity,
    pub node_b: PeerIdentity,
    pub updated: bool,
}

impl View for ChannelInfo {
    type V = ChannelInfoV;

    open spec fn view(&self) -> ChannelInfoV {
        ChannelInfoV {
            scid: self.scid@,
            node_a: self.node_a@,
            node_b: self.node_b@,
            updated: self.updated,
        }
    }
}

/// View of one cache-update call.
#[verifier::ext_equal]
pub enum CacheEventV {
    NodeUpdate(Seq<u8>),
    ChannelAnnounced(Seq<u8>),
    ChannelUpdated(Seq<u8>),
}

/// One call into the cache's update operations, recorded in arrival order.
#[derive(Clone, Debug)]
pub enum CacheEvent {
    NodeUpdate(PeerIdentity),
    ChannelAnnounced(Vec<u8>),
    ChannelUpdated(Vec<u8>),
}

impl View for CacheEvent {
    type V = CacheEventV;

    open spec fn view(&self) -> CacheEventV {
        match self {
            CacheEvent::NodeUpdate(id) => CacheEventV::NodeUpdate(id@),
            CacheEvent::ChannelAnnounced(scid) => CacheEventV::ChannelAnnounced(scid@),
            CacheEvent::ChannelUpdated(scid) => CacheEventV::ChannelUpdated(scid@),
        }
    }
}

/// View of the whole cache.
#[verifier::ext_equal]
pub struct TopologyCacheV {
    pub nodes: Seq<NodeInfoV>,
    pub channels: Seq<ChannelInfoV>,
    pub history: Seq<CacheEventV>,
}

/// The topology cache.
#[derive(Clone, Debug)]
pub struct TopologyCache {
    pub nodes: Vec<NodeInfo>,
    pub channels: Vec<ChannelInfo>,
    pub history: Vec<CacheEvent>,
}

impl View for TopologyCache {
    type V = TopologyCacheV;

    open spec fn view(&self) -> TopologyCacheV {
        TopologyCacheV {
            nodes: self.nodes@.map_values(|n: NodeInfo| n@),
            channels: self.channels@.map_values(|c: ChannelInfo| c@),
            history: self.history@.map_values(|e: CacheEvent| e@),
        }
    }
}

/// Whether some recorded node carries `id`.
pub open spec fn has_node(nodes: Seq<NodeInfoV>, id: Seq<u8>) -> bool {
    exists|i: int| 0 <= i < nodes.len() && nodes[i].node_id == id
}

/// Index of the first recorded node carrying `id`, or `-1`.
pub open spec fn node_index(nodes: Seq<NodeInfoV>, id: Seq<u8>) -> int
    decreases nodes.len(),
{
    if nodes.len() == 0 {
        -1
    } else if nodes[0].node_id == id {
        0
    } else {
        let r = node_index(nodes.skip(1), id);
        if r < 0 {
            -1
        } else {
            r + 1
        }
    }
}

/// If `nodes[i]` is the first record carrying `id`, `node_index` is `i`.
pub proof fn lemma_node_index_at(nodes: Seq<NodeInfoV>, id: Seq<u8>, i: int)
    requires
        0 <= i < nodes.len(),
        nodes[i].node_id == id,
        forall|j: int| 0 <= j < i ==> nodes[j].node_id != id,
    ensures
        node_index(nodes, id) == i,
    decreases nodes.len(),
{
    if i > 0 {
        assert forall|j: int| 0 <= j < i - 1 implies nodes.skip(1)[j].node_id != id by {
            assert(nodes.skip(1)[j] == nodes[j + 1]);
        }
        assert(nodes.skip(1)[i - 1] == nodes[i]);
        lemma_node_index_at(nodes.skip(1), id, i - 1);
    }
}

/// Whether some recorded channel carries `scid`.
pub open spec fn has_channel(channels: Seq<ChannelInfoV>, scid: Seq<u8>) -> bool {
    exists|i: int| 0 <= i < channels.len() && channels[i].scid == scid
}

/// Index of the first recorded channel carrying `scid`, or `-1`.
pub open spec fn channel_index(channels: Seq<ChannelInfoV>, scid: Seq<u8>) -> int
    decreases channels.len(),
{
    if channels.len() == 0 {
        -1
    } else if channels[0].scid == scid {
        0
    } else {
        let r = channel_index(channels.skip(1), scid);
        if r < 0 {
            -1
        } else {
            r + 1
        }
    }
}

/// If `channels[i]` is the first record carrying `scid`, `channel_index` is
/// `i`.
pub proof fn lemma_channel_index_at(channels: Seq<ChannelInfoV>, scid: Seq<u8>, i: int)
    requires
        0 <= i < channels.len(),
        channels[i].scid == scid,
        forall|j: int| 0 <= j < i ==> channels[j].scid != scid,
    ensures
        channel_index(channels, scid) == i,
    decreases channels.len(),
{
    if i > 0 {
        assert forall|j: int| 0 <= j < i - 1 implies channels.skip(1)[j].scid != scid by {
            assert(channels.skip(1)[j] == channels[j + 1]);
        }
        assert(channels.skip(1)[i - 1] == channels[i]);
        lemma_channel_index_at(channels.skip(1), scid, i - 1);
    }
}

/// Whether some announced channel names `id` as an endpoint: only such nodes
/// may carry a node record.
pub open spec fn endpoint_known(channels: Seq<ChannelInfoV>, id: Seq<u8>) -> bool {
    exists|i: int|
        0 <= i < channels.len() && (channels[i].node_a == id || channels[i].node_b == id)
}

/// The node record a node announcement writes.
pub open spec fn node_info_of(ann: crate::messages::NodeAnnouncementV) -> NodeInfoV {
    NodeInfoV {
        node_id: ann.node_id,
        alias: ann.alias,
        rgb: ann.rgb,
        addresses: ann.addresses,
    }
}

/// The cache state after a node-update call.
pub open spec fn cache_after_node_update(
    pre: TopologyCacheV,
    ann: crate::messages::NodeAnnouncementV,
) -> TopologyCacheV {
    TopologyCacheV {
        history: pre.history.push(CacheEventV::NodeUpdate(ann.node_id)),
        channels: pre.channels,
        nodes: if endpoint_known(pre.channels, ann.node_id) {
            if has_node(pre.nodes, ann.node_id) {
                pre.nodes.update(node_index(pre.nodes, ann.node_id), node_info_of(ann))
            } else {
                pre.nodes.push(node_info_of(ann))
            }
        } else {
            pre.nodes
        },
    }
}

/// Exact effect of a node-update call on the cache.
pub open spec fn node_update_applied(
    pre: TopologyCacheV,
    post: TopologyCacheV,
    ann: crate::messages::NodeAnnouncementV,
) -> bool {
    post == cache_after_node_update(pre, ann)
}

/// The cache state after a channel-announcement call.
pub open spec fn cache_after_channel_announcement(
    pre: TopologyCacheV,
    ann: crate::messages::ChannelAnnouncementV,
) -> TopologyCacheV {
    TopologyCacheV {
        history: pre.history.push(CacheEventV::ChannelAnnounced(ann.scid)),
        nodes: pre.nodes,
        channels: if has_channel(pre.channels, ann.scid) {
            pre.channels
        } else {
            pre.channels.push(
                ChannelInfoV {
                    scid: ann.scid,
                    node_a: ann.node_a,
                    node_b: ann.node_b,
                    updated: false,
                },
            )
        },
    }
}

/// Exact effect of a channel-announcement call on the cache.
pub open spec fn channel_announcement_applied(
    pre: TopologyCacheV,
    post: TopologyCacheV,
    ann: crate::messages::ChannelAnnouncementV,
) -> bool {
    post == cache_after_channel_announcement(pre, ann)
}

/// The cache state after a channel-update call.
pub open spec fn cache_after_channel_update(pre: TopologyCacheV, scid: Seq<u8>) -> TopologyCacheV {
    TopologyCacheV {
        history: pre.history.push(CacheEventV::ChannelUpdated(scid)),
        nodes: pre.nodes,
        channels: if has_channel(pre.channels, scid) {
            pre.channels.update(
                channel_index(pre.channels, scid),
                ChannelInfoV { updated: true, ..pre.channels[channel_index(pre.channels, scid)] },
            )
        } else {
            pre.channels
        },
    }
}

/// Exact effect of a channel-update call on the cache.
pub open spec fn channel_update_applied(
    pre: TopologyCacheV,
    post: TopologyCacheV,
    scid: Seq<u8>,
) -> bool {
    post == cache_after_channel_update(pre, scid)
}

/// The always-reject on-chain existence check: this node trusts its snapshot
/// source instead of verifying channels against the chain, so the lookup
/// reports every channel as unknown.
pub struct ErroringUtxoLookup {}

impl ErroringUtxoLookup {
    /// Reports the funding transaction as unknown, for every input.
    pub fn get_utxo(&self, genesis_hash: &Vec<u8>, short_channel_id: &Vec<u8>) -> (r: Result<
        (),
        UtxoCheckError,
    >)
        ensures
            r == Result::<(), UtxoCheckError>::Err(UtxoCheckError::UnknownTransaction),
    {
        let _ = genesis_hash;
        let _ = short_channel_id;
        Err(UtxoCheckError::UnknownTransaction)
    }
}

impl TopologyCache {
    /// An empty cache.
    pub fn new() -> (r: TopologyCache)
        ensures
            r@.nodes.len() == 0,
            r@.channels.len() == 0,
            r@.history.len() == 0,
    {
        TopologyCache { nodes: Vec::new(), channels: Vec::new(), history: Vec::new() }
    }

    /// Applies a node announcement: always appends one history event; records
    /// the alias/color/addresses only when an announced channel names the
    /// node, failing with `UnknownNode` otherwise.
    pub fn update_node_from_announcement(&mut self, ann: &NodeAnnouncementMsg) -> (r: Result<
        (),
        ValidationError,
    >)
        ensures
            node_update_applied(old(self)@, final(self)@, ann@),
            r.is_ok() <==> endpoint_known(old(self)@.channels, ann@.node_id),
            r is Err ==> r == Result::<(), ValidationError>::Err(ValidationError::UnknownNode),
    {
        let ghost pre = self@;
        self.history.push(CacheEvent::NodeUpdate(PeerIdentity {
            bytes: copy_bytes(&ann.node_id.bytes),
        }));
        proof {
            assert(self@.history =~= pre.history.push(CacheEventV::NodeUpdate(ann@.node_id)));
            assert(self@.nodes =~= pre.nodes);
            assert(self@.channels =~= pre.channels);
        }
        if !self.endpoint_known_exec(&ann.node_id) {
            return Err(ValidationError::UnknownNode);
        }
        let info = NodeInfo {
            node_id: PeerIdentity { bytes: copy_bytes(&ann.node_id.bytes) },
            alias: copy_bytes(&ann.alias),
            rgb: copy_bytes(&ann.rgb),
            addresses: copy_bytes(&ann.addresses),
        };
        let n = self.nodes.len();
        let mut i: usize = 0;
        while i < n
            invariant
                self@.history == old(self)@.history.push(CacheEventV::NodeUpdate(ann@.node_id)),
                self@.nodes == old(self)@.nodes,
                self@.channels == old(self)@.channels,
                endpoint_known(old(self)@.channels, ann@.node_id),
                n == self.nodes@.len(),
                i <= n,
                self@.nodes.len() == n,
                info@ == node_info_of(ann@),
                forall|j: int| 0 <= j < i ==> self@.nodes[j].node_id != ann@.node_id,
            decreases n - i,
        {
            if same_identity(&self.nodes[i].node_id, &ann.node_id) {
                proof {
                    lemma_node_index_at(self@.nodes, ann@.node_id, i as int);
                    assert(has_node(self@.nodes, ann@.node_id)) by {
                        assert(self@.nodes[i as int].node_id == ann@.node_id);
                    }
                }
                let ghost prenodes = self@.nodes;
                let ghost prehist = self@.history;
                let ghost prechans = self@.channels;
                self.nodes[i] = info;
                proof {
                    assert(self@.nodes =~= prenodes.update(i as int, node_info_of(ann@)));
                    assert(self@.history =~= prehist);
                    assert(self@.channels =~= prechans);
                }
                return Ok(());
            }
            i += 1;
        }
        proof {
            assert(!has_node(self@.nodes, ann@.node_id));
        }
        let ghost prenodes = self@.nodes;
        let ghost prehist = self@.history;
        let ghost prechans = self@.channels;
        self.nodes.push(info);
        proof {
            assert(self@.nodes =~= prenodes.push(node_info_of(ann@)));
            assert(self@.history =~= prehist);
            assert(self@.channels =~= prechans);
        }
        Ok(())
    }

    /// Whether an announced channel names `id` as an endpoint.
    pub fn endpoint_known_exec(&self, id: &PeerIdentity) -> (r: bool)
        ensures
            r == endpoint_known(self@.channels, id@),
    {
        let n = self.channels.len();
        let mut i: usize = 0;
        while i < n
            invariant
                n == self.channels@.len(),
                i <= n,
                self@.channels.len() == n,
                forall|j: int|
                    0 <= j < i ==> self@.channels[j].node_a != id@ && self@.channels[j].node_b
                        != id@,
            decreases n - i,
        {
            if same_identity(&self.channels[i].node_a, id) || same_identity(
                &self.channels[i].node_b,
                id,
            ) {
                proof {
                    assert(endpoint_known(self@.channels, id@)) by {
                        assert(self@.channels[i as int].node_a == id@ || self@.channels[
                            i as int
                        ].node_b == id@);
                    }
                }
                return true;
            }
            i += 1;
        }
        false
    }

    /// Applies a channel announcement: always appends one history event; the
    /// on-chain check is expected to fail (the designed no-verify path) and
    /// the channel is recorded regardless, unless its short channel id is
    /// already known, which fails with `DuplicateChannel`.
    pub fn update_channel_from_announcement(
        &mut self,
        ann: &ChannelAnnouncementMsg,
        utxo_lookup: &ErroringUtxoLookup,
    ) -> (r: Result<(), ValidationError>)
        ensures
            channel_announcement_applied(old(self)@, final(self)@, ann@),
            r.is_ok() <==> !has_channel(old(self)@.channels, ann@.scid),
            r is Err ==> r == Result::<(), ValidationError>::Err(
                ValidationError::DuplicateChannel,
            ),
    {
        let ghost pre = self@;
        self.history.push(CacheEvent::ChannelAnnounced(copy_bytes(&ann.scid)));
        proof {
            assert(self@.history =~= pre.history.push(CacheEventV::ChannelAnnounced(ann@.scid)));
            assert(self@.nodes =~= pre.nodes);
            assert(self@.channels =~= pre.channels);
        }
        // The lookup never confirms a channel; its verdict is advisory here.
        let genesis_hash: Vec<u8> = Vec::new();
        let _ = utxo_lookup.get_utxo(&genesis_hash, &ann.scid);
        let n = self.channels.len();
        let mut i: usize = 0;
        while i < n
            invariant
                self@.history == old(self)@.history.push(CacheEventV::ChannelAnnounced(ann@.scid)),
                self@.nodes == old(self)@.nodes,
                self@.channels == old(self)@.channels,
                n == self.channels@.len(),
                i <= n,
                self@.channels.len() == n,
                forall|j: int| 0 <= j < i ==> self@.channels[j].scid != ann@.scid,
            decreases n - i,
        {
            if bytes_equal(&self.channels[i].scid, &ann.scid) {
                proof {
                    assert(has_channel(self@.channels, ann@.scid)) by {
                        assert(self@.channels[i as int].scid == ann@.scid);
                    }
                }
                return Err(ValidationError::DuplicateChannel);
            }
            i += 1;
        }
        proof {
            assert(!has_channel(self@.channels, ann@.scid));
        }
        let info = ChannelInfo {
            scid: copy_bytes(&ann.scid),
            node_a: PeerIdentity { bytes: copy_bytes(&ann.node_a.bytes) },
            node_b: PeerIdentity { bytes: copy_bytes(&ann.node_b.bytes) },
            updated: false,
        };
        let ghost prechans = self@.channels;
        let ghost prehist = self@.history;
        let ghost prenodes = self@.nodes;
        self.channels.push(info);
        proof {
            assert(self@.channels =~= prechans.push(
                ChannelInfoV {
                    scid: ann@.scid,
                    node_a: ann@.node_a,
                    node_b: ann@.node_b,
                    updated: false,
                },
            ));
            assert(self@.history =~= prehist);
            assert(self@.nodes =~= prenodes);
        }
        Ok(())
    }

    /// Applies a channel update: always appends one history event; marks the
    /// channel updated, or fails with `UnknownChannel` when no announcement
    /// carried its short channel id.
    pub fn update_channel(&mut self, upd: &ChannelUpdateMsg) -> (r: Result<(), ValidationError>)
        ensures
            channel_update_applied(old(self)@, final(self)@, upd@),
            r.is_ok() <==> has_channel(old(self)@.channels, upd@),
            r is Err ==> r == Result::<(), ValidationError>::Err(ValidationError::UnknownChannel),
    {
        let ghost pre = self@;
        self.history.push(CacheEvent::ChannelUpdated(copy_bytes(&upd.scid)));
        proof {
            assert(self@.history =~= pre.history.push(CacheEventV::ChannelUpdated(upd@)));
            assert(self@.nodes =~= pre.nodes);
            assert(self@.channels =~= pre.channels);
        }
        let n = self.channels.len();
        let mut i: usize = 0;
        while i < n
            invariant
                self@.history == old(self)@.history.push(CacheEventV::ChannelUpdated(upd@)),
                self@.nodes == old(self)@.nodes,
                self@.channels == old(self)@.channels,
                n == self.channels@.len(),
                i <= n,
                self@.channels.len() == n,
                forall|j: int| 0 <= j < i ==> self@.channels[j].scid != upd@,
            decreases n - i,
        {
            if bytes_equal(&self.channels[i].scid, &upd.scid) {
                proof {
                    lemma_channel_index_at(self@.channels, upd@, i as int);
                    assert(has_channel(self@.channels, upd@)) by {
                        assert(self@.channels[i as int].scid == upd@);
                    }
                }
                let replacement = ChannelInfo {
                    scid: copy_bytes(&self.channels[i].scid),
                    node_a: PeerIdentity { bytes: copy_bytes(&self.channels[i].node_a.bytes) },
                    node_b: PeerIdentity { bytes: copy_bytes(&self.channels[i].node_b.bytes) },
                    updated: true,
                };
                let ghost prechans = self@.channels;
                let ghost prehist = self@.history;
                let ghost prenodes = self@.nodes;
                self.channels[i] = replacement;
                proof {
                    assert(self@.channels =~= prechans.update(
                        i as int,
                        ChannelInfoV { updated: true, ..prechans[i as int] },
                    ));
                    assert(self@.history =~= prehist);
                    assert(self@.nodes =~= prenodes);
                }
                return Ok(());
            }
            i += 1;
        }
        proof {
            assert(!has_channel(self@.channels, upd@));
        }
        Err(ValidationError::UnknownChannel)
    }
}

} // verus!
