use mutiny_core::errors::HandshakeError;
use mutiny_core::gossip::GossipMessageHandler;
use mutiny_core::identity::PeerIdentity;
use mutiny_core::metadata::MetadataStore;
use mutiny_core::session::PeerSessionManager;
use mutiny_core::topology::TopologyCache;

// Compressed secp256k1 generator point: a well-formed public key.
const KEY_G: [u8; 33] = [
    0x02, 0x79, 0xBE, 0x66, 0x7E, 0xF9, 0xDC, 0xBB, 0xAC, 0x55, 0xA0, 0x62, 0x95, 0xCE, 0x87,
    0x0B, 0x07, 0x02, 0x9B, 0xFC, 0xDB, 0x2D, 0xCE, 0x28, 0xD9, 0x59, 0xF2, 0x81, 0x5B, 0x16,
    0xF8, 0x17, 0x98,
];

// Twice the generator: a second well-formed public key.
const KEY_2G: [u8; 33] = [
    0x02, 0xC6, 0x04, 0x7F, 0x94, 0x41, 0xED, 0x7D, 0x6D, 0x30, 0x45, 0x40, 0x6E, 0x95, 0xC0,
    0x7C, 0xD8, 0x5C, 0x77, 0x8E, 0x4B, 0x8C, 0xEF, 0x3C, 0xA7, 0xAB, 0xAC, 0x09, 0xB9, 0x5C,
    0x70, 0x9E, 0xE5,
];

// Three times the generator: a third well-formed public key.
const KEY_3G: [u8; 33] = [
    0x02, 0xF9, 0x30, 0x8A, 0x01, 0x92, 0x58, 0xC3, 0x10, 0x49, 0x34, 0x4F, 0x85, 0xF8, 0x9D,
    0x52, 0x29, 0xB5, 0x31, 0xC8, 0x45, 0x83, 0x6F, 0x99, 0xB0, 0x86, 0x01, 0xF1, 0x13, 0xBC,
    0xE0, 0x36, 0xF9,
];

fn identity(bytes: &[u8; 33]) -> PeerIdentity {
    PeerIdentity::from_bytes(bytes.to_vec()).expect("33-byte identity")
}

fn manager() -> PeerSessionManager {
    let gossip = GossipMessageHandler::new(MetadataStore::new(), TopologyCache::new());
    PeerSessionManager::new(identity(&KEY_G), gossip)
}

fn frame(payload: Vec<u8>) -> Vec<u8> {
    let mut out = vec![(payload.len() / 256) as u8, (payload.len() % 256) as u8];
    out.extend_from_slice(&payload);
    out
}

fn node_announcement_payload(id: &[u8; 33]) -> Vec<u8> {
    let mut p = vec![2u8];
    p.extend_from_slice(id);
    p.extend_from_slice(&[0x41; 32]);
    p.extend_from_slice(&[7, 8, 9]);
    p
}

fn listed(m: &PeerSessionManager, id: &[u8; 33]) -> bool {
    m.list_connected_identities().iter().any(|p| p.bytes == id.to_vec())
}

#[test]
fn outbound_connection_listed() {
    let mut m = manager();
    let bytes = m.connect_outbound(identity(&KEY_2G), 7, None).expect("handshake starts");
    // The initial handshake bytes frame this node's identity.
    let mut expected = vec![1u8];
    expected.extend_from_slice(&KEY_G);
    assert_eq!(bytes, frame(expected));
    assert!(listed(&m, &KEY_2G));
}

#[test]
fn connect_rejects_malformed_identity() {
    let mut m = manager();
    let garbage = PeerIdentity::from_bytes(vec![0u8; 33]).expect("length fits");
    assert_eq!(m.connect_outbound(garbage, 7, None), Err(HandshakeError::InvalidIdentity));
    assert!(m.list_connected_identities().is_empty());
    // A wrong-length byte string is not even an identity.
    assert!(PeerIdentity::from_bytes(vec![2u8; 32]).is_none());
}

#[test]
fn connect_rejects_duplicate_identity() {
    let mut m = manager();
    m.connect_outbound(identity(&KEY_2G), 7, None).expect("first connection");
    assert_eq!(
        m.connect_outbound(identity(&KEY_2G), 8, None),
        Err(HandshakeError::AlreadyConnected)
    );
    assert_eq!(m.list_connected_identities().len(), 1);
}

#[test]
fn connect_rejects_descriptor_in_use() {
    let mut m = manager();
    m.connect_outbound(identity(&KEY_2G), 7, None).expect("first connection");
    assert_eq!(
        m.connect_outbound(identity(&KEY_3G), 7, None),
        Err(HandshakeError::DescriptorInUse)
    );
}

#[test]
fn disconnect_not_connected_is_noop() {
    let mut m = manager();
    m.connect_outbound(identity(&KEY_2G), 7, None).expect("connection");
    // Never connected: the call is a no-op and never errors.
    m.disconnect(&identity(&KEY_3G));
    assert_eq!(m.list_connected_identities().len(), 1);
    assert!(listed(&m, &KEY_2G));
}

#[test]
fn disconnect_removes_session() {
    let mut m = manager();
    m.connect_outbound(identity(&KEY_2G), 7, None).expect("connection");
    m.disconnect(&identity(&KEY_2G));
    assert!(m.list_connected_identities().is_empty());
    // Idempotent.
    m.disconnect(&identity(&KEY_2G));
    assert!(m.list_connected_identities().is_empty());
}

#[test]
fn disconnect_all_ends_every_session() {
    let mut m = manager();
    m.connect_outbound(identity(&KEY_2G), 7, None).expect("connection");
    m.connect_outbound(identity(&KEY_3G), 8, None).expect("connection");
    m.disconnect_all();
    assert!(m.list_connected_identities().is_empty());
}

#[test]
fn socket_close_tears_down_session() {
    let mut m = manager();
    m.connect_outbound(identity(&KEY_2G), 7, None).expect("connection");
    m.on_socket_closed(7);
    assert!(m.list_connected_identities().is_empty());
    // Idempotent.
    m.on_socket_closed(7);
    assert!(m.list_connected_identities().is_empty());
}

#[test]
fn split_message_dispatches_exactly_once() {
    let mut m = manager();
    m.connect_outbound(identity(&KEY_2G), 7, None).expect("connection");
    let bytes = frame(node_announcement_payload(&KEY_3G));
    let (first, second) = bytes.split_at(10);

    let keep = m.on_bytes_received(7, &first.to_vec()).expect("partial frame buffered");
    assert!(keep);
    assert_eq!(m.gossip.cache.history.len(), 0);

    let keep = m.on_bytes_received(7, &second.to_vec()).expect("frame completed");
    assert!(keep);
    assert_eq!(m.gossip.cache.history.len(), 1);
}

#[test]
fn two_frames_in_one_read_dispatch_twice() {
    let mut m = manager();
    m.connect_outbound(identity(&KEY_2G), 7, None).expect("connection");
    let mut bytes = frame(node_announcement_payload(&KEY_3G));
    bytes.extend_from_slice(&frame(node_announcement_payload(&KEY_2G)));
    m.on_bytes_received(7, &bytes).expect("both frames decode");
    assert_eq!(m.gossip.cache.history.len(), 2);
}

#[test]
fn malformed_input_is_session_fatal() {
    let mut m = manager();
    m.connect_outbound(identity(&KEY_2G), 7, None).expect("connection");
    // An unknown message type is undecodable input.
    let r = m.on_bytes_received(7, &frame(vec![200u8]));
    assert!(r.is_err());
    // Bytes for a descriptor nobody registered are refused.
    let r = m.on_bytes_received(99, &frame(vec![5u8]));
    assert_eq!(r, Err(HandshakeError::UnknownDescriptor));
}

#[test]
fn inbound_handshake_establishes_identity() {
    let mut m = manager();
    m.accept_inbound(5, None).expect("descriptor free");
    assert!(m.list_connected_identities().is_empty());

    let mut hs = vec![1u8];
    hs.extend_from_slice(&KEY_2G);
    m.on_bytes_received(5, &frame(hs)).expect("handshake accepted");
    assert!(listed(&m, &KEY_2G));

    // The handshake reply is queued for the transport to send.
    let actions = m.run_pending_actions();
    assert_eq!(actions.len(), 1);
    assert_eq!(actions[0].0, 5);
    let mut reply = vec![1u8];
    reply.extend_from_slice(&KEY_G);
    assert_eq!(actions[0].1, frame(reply));
}

#[test]
fn inbound_handshake_rejects_invalid_key() {
    let mut m = manager();
    m.accept_inbound(5, None).expect("descriptor free");
    let mut hs = vec![1u8];
    hs.extend_from_slice(&[0u8; 33]);
    assert_eq!(m.on_bytes_received(5, &frame(hs)), Err(HandshakeError::InvalidIdentity));
}

#[test]
fn inbound_handshake_rejects_connected_identity() {
    let mut m = manager();
    m.connect_outbound(identity(&KEY_2G), 7, None).expect("connection");
    m.accept_inbound(5, None).expect("descriptor free");
    let mut hs = vec![1u8];
    hs.extend_from_slice(&KEY_2G);
    assert_eq!(m.on_bytes_received(5, &frame(hs)), Err(HandshakeError::AlreadyConnected));
}

#[test]
fn timer_sends_ping_then_evicts_unresponsive_peer() {
    let mut m = manager();
    m.connect_outbound(identity(&KEY_2G), 7, None).expect("connection");
    m.on_timer_tick();
    // The keepalive ping is queued for the transport.
    let actions = m.run_pending_actions();
    assert_eq!(actions.len(), 1);
    assert_eq!(actions[0].1, frame(vec![5u8]));
    assert!(listed(&m, &KEY_2G));
    m.on_timer_tick();
    assert!(listed(&m, &KEY_2G));
    m.on_timer_tick();
    assert!(!listed(&m, &KEY_2G));
}

#[test]
fn pong_keeps_session_alive() {
    let mut m = manager();
    m.connect_outbound(identity(&KEY_2G), 7, None).expect("connection");
    m.on_timer_tick();
    m.on_bytes_received(7, &frame(vec![6u8])).expect("pong accepted");
    m.on_timer_tick();
    m.on_timer_tick();
    // The pong reset the keepalive clock: a fresh ping cycle is running.
    assert!(listed(&m, &KEY_2G));
}

#[test]
fn ping_is_answered_with_pong() {
    let mut m = manager();
    m.connect_outbound(identity(&KEY_2G), 7, None).expect("connection");
    m.on_bytes_received(7, &frame(vec![5u8])).expect("ping accepted");
    let actions = m.run_pending_actions();
    assert_eq!(actions.len(), 1);
    assert_eq!(actions[0].1, frame(vec![6u8]));
}

#[test]
fn handshake_timeout_evicts_silent_inbound_session() {
    let mut m = manager();
    m.accept_inbound(5, None).expect("descriptor free");
    m.on_timer_tick();
    m.on_timer_tick();
    // The session is gone: its descriptor is free again.
    assert!(m.accept_inbound(5, None).is_ok());
}

#[test]
fn bulk_sync_queries_are_accepted_and_unanswered() {
    let mut m = manager();
    m.connect_outbound(identity(&KEY_2G), 7, None).expect("connection");
    m.on_bytes_received(7, &frame(vec![7u8, 0, 0, 0, 0, 0, 0, 0, 4])).expect("range query");
    m.on_bytes_received(7, &frame(vec![8u8, 0, 0])).expect("short-ids query");
    // Nothing is served back.
    assert!(m.run_pending_actions().is_empty());
}

#[test]
fn broadcast_reaches_every_connected_peer() {
    let mut m = manager();
    m.connect_outbound(identity(&KEY_2G), 7, None).expect("connection");
    m.connect_outbound(identity(&KEY_3G), 8, None).expect("connection");
    m.accept_inbound(5, None).expect("descriptor free");

    m.broadcast_node_announcement(vec![1, 2, 3], vec![0x42; 32], Vec::new());
    let actions = m.run_pending_actions();
    assert_eq!(actions.len(), 2);

    let mut payload = vec![2u8];
    payload.extend_from_slice(&KEY_G);
    payload.extend_from_slice(&[0x42; 32]);
    payload.extend_from_slice(&[1, 2, 3]);
    let expected = frame(payload);
    assert_eq!(actions[0].1, expected);
    assert_eq!(actions[1].1, expected);
}

#[test]
fn flush_waits_for_write_readiness() {
    let mut m = manager();
    m.connect_outbound(identity(&KEY_2G), 7, None).expect("connection");
    m.on_bytes_received(7, &frame(vec![5u8])).expect("ping accepted");
    assert_eq!(m.run_pending_actions().len(), 1);

    // Until the transport reports readiness again, nothing more is flushed.
    m.on_bytes_received(7, &frame(vec![5u8])).expect("second ping");
    assert!(m.run_pending_actions().is_empty());
    m.notify_writable(7).expect("session exists");
    assert_eq!(m.run_pending_actions().len(), 1);
    assert_eq!(m.notify_writable(99), Err(HandshakeError::UnknownDescriptor));
}

#[test]
fn empty_read_dispatches_nothing() {
    let mut m = manager();
    m.connect_outbound(identity(&KEY_2G), 7, None).expect("connection");
    let keep = m.on_bytes_received(7, &Vec::new()).expect("nothing to decode");
    assert!(keep);
    assert_eq!(m.gossip.cache.history.len(), 0);
}

#[test]
fn empty_frame_payload_is_malformed() {
    let mut m = manager();
    m.connect_outbound(identity(&KEY_2G), 7, None).expect("connection");
    assert_eq!(m.on_bytes_received(7, &frame(Vec::new())), Err(HandshakeError::MalformedInput));
}
