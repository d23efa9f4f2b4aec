use mutiny_core::errors::{StoreError, UtxoCheckError, ValidationError};
use mutiny_core::gossip::GossipMessageHandler;
use mutiny_core::identity::PeerIdentity;
use mutiny_core::messages::{
    ChannelAnnouncementMsg, ChannelUpdateMsg, NodeAnnouncementMsg, QueryChannelRangeMsg,
    QueryShortChannelIdsMsg, ReplyChannelRangeMsg, ReplyShortChannelIdsEndMsg,
};
use mutiny_core::metadata::{MetadataRecord, MetadataStore};
use mutiny_core::topology::{CacheEvent, ErroringUtxoLookup, TopologyCache};

fn key_a() -> Vec<u8> {
    let mut v = vec![2u8];
    v.extend_from_slice(&[0x11; 32]);
    v
}

fn key_b() -> Vec<u8> {
    let mut v = vec![3u8];
    v.extend_from_slice(&[0x22; 32]);
    v
}

fn identity(bytes: Vec<u8>) -> PeerIdentity {
    PeerIdentity::from_bytes(bytes).expect("33-byte identity")
}

fn alias(label: &str) -> Vec<u8> {
    let mut v = label.as_bytes().to_vec();
    v.resize(32, 0u8);
    v
}

fn handler() -> GossipMessageHandler {
    GossipMessageHandler::new(MetadataStore::new(), TopologyCache::new())
}

fn node_announcement(id: Vec<u8>, label: &str, rgb: [u8; 3]) -> NodeAnnouncementMsg {
    NodeAnnouncementMsg {
        node_id: identity(id),
        alias: alias(label),
        rgb: rgb.to_vec(),
        addresses: Vec::new(),
    }
}

fn channel_announcement(a: Vec<u8>, b: Vec<u8>, scid: [u8; 8]) -> ChannelAnnouncementMsg {
    ChannelAnnouncementMsg { node_a: identity(a), node_b: identity(b), scid: scid.to_vec() }
}

#[test]
fn node_announcement_without_record_creates_none() {
    let mut h = handler();
    let relay = h.handle_node_announcement(&node_announcement(key_b(), "new", [1, 2, 3]));
    assert!(!relay);
    assert_eq!(h.store.record_count(), 0);
    assert_eq!(h.cache.history.len(), 1);
    assert!(matches!(h.cache.history[0], CacheEvent::NodeUpdate(_)));
}

#[test]
fn node_announcement_refreshes_existing_record() {
    let mut h = handler();
    let rec = MetadataRecord {
        node_id: identity(key_a()),
        alias: alias("old"),
        rgb: vec![0, 0, 0],
    };
    h.store.write(rec).expect("store accepts writes");
    assert_eq!(h.store.record_count(), 1);

    let relay = h.handle_node_announcement(&node_announcement(key_a(), "new", [1, 2, 3]));
    assert!(!relay);
    assert_eq!(h.store.record_count(), 1);
    let stored = h.store.read(&identity(key_a())).expect("record kept");
    assert_eq!(stored.node_id.bytes, key_a());
    assert_eq!(stored.alias, alias("new"));
    assert_eq!(stored.rgb, vec![1, 2, 3]);
    assert_eq!(h.cache.history.len(), 1);
}

#[test]
fn store_failure_never_blocks_cache() {
    let mut h = handler();
    let rec = MetadataRecord {
        node_id: identity(key_a()),
        alias: alias("old"),
        rgb: vec![0, 0, 0],
    };
    h.store.write(rec).expect("store accepts writes");
    h.store.set_accepting_writes(false);

    let relay = h.handle_node_announcement(&node_announcement(key_a(), "new", [1, 2, 3]));
    assert!(!relay);
    let stored = h.store.read(&identity(key_a())).expect("record kept");
    assert_eq!(stored.alias, alias("old"));
    assert_eq!(stored.rgb, vec![0, 0, 0]);
    assert_eq!(h.cache.history.len(), 1);
}

#[test]
fn read_only_store_reports_write_errors() {
    let mut store = MetadataStore::new();
    store.set_accepting_writes(false);
    let rec = MetadataRecord {
        node_id: identity(key_a()),
        alias: alias("x"),
        rgb: vec![9, 9, 9],
    };
    assert_eq!(store.write(rec), Err(StoreError::ReadOnly));
    assert_eq!(store.record_count(), 0);
}

#[test]
fn every_announcement_reaches_cache_exactly_once() {
    let mut h = handler();
    h.handle_node_announcement(&node_announcement(key_a(), "n", [0, 0, 0]));
    h.handle_channel_announcement(&channel_announcement(key_a(), key_b(), [0, 0, 0, 0, 0, 0, 0, 1]));
    h.handle_channel_update(&ChannelUpdateMsg { scid: vec![0, 0, 0, 0, 0, 0, 0, 1] });
    h.handle_channel_update(&ChannelUpdateMsg { scid: vec![0, 0, 0, 0, 0, 0, 0, 9] });
    assert_eq!(h.cache.history.len(), 4);
    assert!(matches!(h.cache.history[0], CacheEvent::NodeUpdate(_)));
    assert!(matches!(h.cache.history[1], CacheEvent::ChannelAnnounced(_)));
    assert!(matches!(h.cache.history[2], CacheEvent::ChannelUpdated(_)));
    assert!(matches!(h.cache.history[3], CacheEvent::ChannelUpdated(_)));
}

#[test]
fn channel_update_marks_known_channel() {
    let mut h = handler();
    h.handle_channel_announcement(&channel_announcement(key_a(), key_b(), [0, 0, 0, 0, 0, 0, 0, 7]));
    assert_eq!(h.cache.channels.len(), 1);
    assert!(!h.cache.channels[0].updated);
    h.handle_channel_update(&ChannelUpdateMsg { scid: vec![0, 0, 0, 0, 0, 0, 0, 7] });
    assert!(h.cache.channels[0].updated);
}

#[test]
fn node_record_requires_known_channel_endpoint() {
    let mut cache = TopologyCache::new();
    let ann = node_announcement(key_a(), "n", [1, 1, 1]);
    assert_eq!(cache.update_node_from_announcement(&ann), Err(ValidationError::UnknownNode));
    assert_eq!(cache.nodes.len(), 0);

    let chan = channel_announcement(key_a(), key_b(), [0, 0, 0, 0, 0, 0, 0, 2]);
    let lookup = ErroringUtxoLookup {};
    cache.update_channel_from_announcement(&chan, &lookup).expect("first announcement");
    assert_eq!(cache.update_node_from_announcement(&ann), Ok(()));
    assert_eq!(cache.nodes.len(), 1);
}

#[test]
fn duplicate_channel_announcement_rejected() {
    let mut cache = TopologyCache::new();
    let chan = channel_announcement(key_a(), key_b(), [0, 0, 0, 0, 0, 0, 0, 3]);
    let lookup = ErroringUtxoLookup {};
    assert_eq!(cache.update_channel_from_announcement(&chan, &lookup), Ok(()));
    let again = channel_announcement(key_a(), key_b(), [0, 0, 0, 0, 0, 0, 0, 3]);
    assert_eq!(
        cache.update_channel_from_announcement(&again, &lookup),
        Err(ValidationError::DuplicateChannel)
    );
    assert_eq!(cache.channels.len(), 1);
    assert_eq!(cache.history.len(), 2);
}

#[test]
fn utxo_lookup_always_reports_unknown() {
    let lookup = ErroringUtxoLookup {};
    let r = lookup.get_utxo(&Vec::new(), &vec![0, 0, 0, 0, 0, 0, 0, 1]);
    assert_eq!(r, Err(UtxoCheckError::UnknownTransaction));
}

#[test]
fn bulk_sync_queries_always_empty() {
    let h = handler();
    let peer = identity(key_a());
    assert!(h.get_next_channel_announcement(0).is_none());
    assert!(h.get_next_channel_announcement(u64::MAX).is_none());
    assert!(h.get_next_node_announcement(Some(&peer)).is_none());
    assert!(h.get_next_node_announcement(None).is_none());
    assert!(h
        .handle_query_channel_range(
            &peer,
            QueryChannelRangeMsg { first_block: 0, number_of_blocks: 1000 }
        )
        .is_ok());
    assert!(h
        .handle_query_short_channel_ids(
            &peer,
            QueryShortChannelIdsMsg { scids: vec![vec![0, 0, 0, 0, 0, 0, 0, 1]] }
        )
        .is_ok());
    assert!(h
        .handle_reply_channel_range(
            &peer,
            ReplyChannelRangeMsg { first_block: 0, number_of_blocks: 1, sync_complete: true }
        )
        .is_ok());
    assert!(h
        .handle_reply_short_channel_ids_end(
            &peer,
            ReplyShortChannelIdsEndMsg { full_information: false }
        )
        .is_ok());
    assert!(!h.processing_queue_high());
    assert!(h.get_and_clear_pending_msg_events().is_empty());
}

#[test]
fn capability_negotiation_is_minimal() {
    let h = handler();
    let peer = identity(key_a());
    let init = mutiny_core::messages::InitMsg {
        features: mutiny_core::messages::Features::empty(),
    };
    assert!(h.peer_connected(&peer, &init, true).is_ok());
    assert!(h.peer_connected(&peer, &init, false).is_ok());
    assert!(h.provided_node_features().is_empty());
    assert!(h.provided_init_features(&peer).is_empty());
}
