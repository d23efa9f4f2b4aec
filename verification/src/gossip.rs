//! The gossip relay: intake for the three routing announcement types, the
//! minimal persistence policy, and the refusal to serve bulk gossip.
//!
//! Announcement intake never fails: metadata-store failures and cache
//! validation failures are swallowed so that gossip quality problems never
//! tear down a peer session. Bulk-sync queries are always answered empty;
//! capability negotiation always succeeds with the minimal feature set.

use vstd::prelude::*;
use crate::bytes::copy_bytes;
use crate::errors::ValidationError;
use crate::identity::PeerIdentity;
use crate::messages::{
    ChannelAnnouncementMsg, ChannelUpdateMsg, Features, InitMsg, NodeAnnouncementMsg,
    NodeAnnouncementV, QueryChannelRangeMsg, QueryShortChannelIdsMsg, ReplyChannelRangeMsg,
    ReplyShortChannelIdsEndMsg,
};
use crate::metadata::{MetadataRecord, MetadataRecordV, MetadataStore, has_record, record_index};
use crate::topology::{
    ErroringUtxoLookup, TopologyCache, channel_announcement_applied, channel_update_applied,
    node_update_applied,
};

verus! {

/// The metadata record a node announcement refreshes.
pub open spec fn record_of_announcement(ann: NodeAnnouncementV) -> MetadataRecordV {
    MetadataRecordV { node_id: ann.node_id, alias: ann.alias, rgb: ann.rgb }
}

/// The store state after a node announcement: an existing record is
/// refreshed when the store accepts writes; no record is ever created, and a
/// refused write changes nothing.
pub open spec fn store_after_refresh(
    pre: Seq<MetadataRecordV>,
    accepting: bool,
    ann: NodeAnnouncementV,
) -> Seq<MetadataRecordV> {
    if has_record(pre, ann.node_id) && accepting {
        pre.update(record_index(pre, ann.node_id), record_of_announcement(ann))
    } else {
        pre
    }
}

/// Exact effect of a node announcement on the metadata store.
pub open spec fn metadata_refresh_applied(
    pre: Seq<MetadataRecordV>,
    accepting: bool,
    post: Seq<MetadataRecordV>,
    ann: NodeAnnouncementV,
) -> bool {
    post == store_after_refresh(pre, accepting, ann)
}

/// Intercepts routing announcements, applies the persistence policy, keeps
/// the topology cache current, and declines bulk gossip synchronization.
pub struct GossipMessageHandler {
    pub store: MetadataStore,
    pub cache: TopologyCache,
}

impl GossipMessageHandler {
    /// A handler over the given store and cache.
    pub fn new(store: MetadataStore, cache: TopologyCache) -> (r: GossipMessageHandler)
        ensures
            r.store == store,
            r.cache == cache,
    {
        GossipMessageHandler { store, cache }
    }

    /// Node announcement intake: refreshes the metadata record if one already
    /// exists (a write failure is swallowed, never created from scratch), and
    /// unconditionally forwards the announcement into the topology cache.
    /// Returns whether further relay is needed, which is never.
    pub fn handle_node_announcement(&mut self, msg: &NodeAnnouncementMsg) -> (relay: bool)
        ensures
            relay == false,
            metadata_refresh_applied(
                old(self).store@,
                old(self).store.accepting_writes,
                final(self).store@,
                msg@,
            ),
            final(self).store@.len() == old(self).store@.len(),
            final(self).store.accepting_writes == old(self).store.accepting_writes,
            node_update_applied(old(self).cache@, final(self).cache@, msg@),
    {
        proof {
            crate::metadata::lemma_record_index(self.store@, msg.node_id@);
        }
        let existing = self.store.read(&msg.node_id);
        if existing.is_some() {
            let refreshed = MetadataRecord {
                node_id: PeerIdentity { bytes: copy_bytes(&msg.node_id.bytes) },
                alias: copy_bytes(&msg.alias),
                rgb: copy_bytes(&msg.rgb),
            };
            // A store failure is logged upstream and must never abort
            // message processing.
            let _ = self.store.write(refreshed);
        }
        // The cache benefits all routing decisions, so it is informed even
        // when the local persistence was skipped; its validation verdict is
        // likewise swallowed.
        let _ = self.cache.update_node_from_announcement(msg);
        false
    }

    /// Channel announcement intake: forwards into the topology cache under
    /// the always-reject on-chain check (the designed no-verify path).
    /// Returns whether further relay is needed, which is never.
    pub fn handle_channel_announcement(&mut self, msg: &ChannelAnnouncementMsg) -> (relay: bool)
        ensures
            relay == false,
            final(self).store == old(self).store,
            channel_announcement_applied(old(self).cache@, final(self).cache@, msg@),
    {
        let utxo_lookup = ErroringUtxoLookup {};
        let _ = self.cache.update_channel_from_announcement(msg, &utxo_lookup);
        false
    }

    /// Channel update intake: forwards into the topology cache. Returns
    /// whether further relay is needed, which is never.
    pub fn handle_channel_update(&mut self, msg: &ChannelUpdateMsg) -> (relay: bool)
        ensures
            relay == false,
            final(self).store == old(self).store,
            channel_update_applied(old(self).cache@, final(self).cache@, msg@),
    {
        let _ = self.cache.update_channel(msg);
        false
    }

    /// Bulk sync is delegated to an external snapshot source: pagination
    /// never yields an announcement.
    pub fn get_next_channel_announcement(&self, starting_point: u64) -> (r: Option<
        (ChannelAnnouncementMsg, Option<ChannelUpdateMsg>, Option<ChannelUpdateMsg>),
    >)
        ensures
            r is None,
    {
        let _ = starting_point;
        None
    }

    /// Bulk sync is delegated to an external snapshot source: pagination
    /// never yields an announcement.
    pub fn get_next_node_announcement(&self, starting_point: Option<&PeerIdentity>) -> (r: Option<
        NodeAnnouncementMsg,
    >)
        ensures
            r is None,
    {
        let _ = starting_point;
        None
    }

    /// Capability negotiation always succeeds; this node is a gossip
    /// consumer, not a gossip server.
    pub fn peer_connected(&self, their_node_id: &PeerIdentity, init: &InitMsg, inbound: bool) -> (r:
        Result<(), ()>)
        ensures
            r is Ok,
    {
        let _ = their_node_id;
        let _ = init;
        let _ = inbound;
        Ok(())
    }

    /// A reply to a range query is accepted and ignored.
    pub fn handle_reply_channel_range(
        &self,
        their_node_id: &PeerIdentity,
        msg: ReplyChannelRangeMsg,
    ) -> (r: Result<(), ValidationError>)
        ensures
            r is Ok,
    {
        let _ = their_node_id;
        let _ = msg;
        Ok(())
    }

    /// The end of a short-channel-ids reply is accepted and ignored.
    pub fn handle_reply_short_channel_ids_end(
        &self,
        their_node_id: &PeerIdentity,
        msg: ReplyShortChannelIdsEndMsg,
    ) -> (r: Result<(), ValidationError>)
        ensures
            r is Ok,
    {
        let _ = their_node_id;
        let _ = msg;
        Ok(())
    }

    /// A range query is accepted but served nothing.
    pub fn handle_query_channel_range(
        &self,
        their_node_id: &PeerIdentity,
        msg: QueryChannelRangeMsg,
    ) -> (r: Result<(), ValidationError>)
        ensures
            r is Ok,
    {
        let _ = their_node_id;
        let _ = msg;
        Ok(())
    }

    /// A short-channel-ids query is accepted but served nothing.
    pub fn handle_query_short_channel_ids(
        &self,
        their_node_id: &PeerIdentity,
        msg: QueryShortChannelIdsMsg,
    ) -> (r: Result<(), ValidationError>)
        ensures
            r is Ok,
    {
        let _ = their_node_id;
        let _ = msg;
        Ok(())
    }

    /// This handler never builds a backlog worth throttling peers over.
    pub fn processing_queue_high(&self) -> (r: bool)
        ensures
            r == false,
    {
        false
    }

    /// The minimal feature set: no optional routing capabilities.
    pub fn provided_node_features(&self) -> (r: Features)
        ensures
            r@.len() == 0,
    {
        Features::empty()
    }

    /// The minimal feature set: no optional routing capabilities.
    pub fn provided_init_features(&self, their_node_id: &PeerIdentity) -> (r: Features)
        ensures
            r@.len() == 0,
    {
        let _ = their_node_id;
        Features::empty()
    }

    /// This handler never originates peer-to-peer messages of its own: the
    /// outbound queue is always empty.
    pub fn get_and_clear_pending_msg_events(&self) -> (r: Vec<Vec<u8>>)
        ensures
            r@.len() == 0,
    {
        Vec::new()
    }
}

} // verus!
