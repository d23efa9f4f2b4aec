//! Frame grammar at the transport boundary.
//!
//! A frame is a two-byte big-endian payload length followed by the payload;
//! the first payload byte names the message type. `on_bytes_received` is
//! incremental: partial frames are buffered across calls, and
//! [`complete_payloads`] / [`leftover`] split any buffered byte sequence
//! into the payloads ready for dispatch and the unfinished tail.

use vstd::prelude::*;
use crate::bytes::{append_bytes, copy_range};
use crate::messages::{ChannelAnnouncementMsg, ChannelUpdateMsg, NodeAnnouncementMsg};
use crate::messages::{ChannelAnnouncementV, NodeAnnouncementV};
use crate::identity::PeerIdentity;

verus! {

/// Largest payload a two-byte length can announce.
pub const MAX_FRAME_PAYLOAD: usize = 65535;

/// Payload type byte: the identity-bearing handshake message.
pub const MSG_HANDSHAKE: u8 = 1;

/// Payload type byte: node announcement.
pub const MSG_NODE_ANNOUNCEMENT: u8 = 2;

/// Payload type byte: channel announcement.
pub const MSG_CHANNEL_ANNOUNCEMENT: u8 = 3;

/// Payload type byte: channel update.
pub const MSG_CHANNEL_UPDATE: u8 = 4;

/// Payload type byte: keepalive ping.
pub const MSG_PING: u8 = 5;

/// Payload type byte: keepalive pong.
pub const MSG_PONG: u8 = 6;

/// Payload type byte: bulk-sync channel-range query.
pub const MSG_QUERY_CHANNEL_RANGE: u8 = 7;

/// Payload type byte: bulk-sync short-channel-ids query.
pub const MSG_QUERY_SHORT_CHANNEL_IDS: u8 = 8;

/// Shortest node-announcement payload: type, node id, alias, color.
pub const NODE_ANNOUNCEMENT_MIN_LEN: usize = 69;

/// Exact channel-announcement payload length: type, two node ids, scid.
pub const CHANNEL_ANNOUNCEMENT_LEN: usize = 75;

/// Exact channel-update payload length: type, scid.
pub const CHANNEL_UPDATE_LEN: usize = 9;

/// The payload length announced by the first two buffered bytes.
pub open spec fn announced_len(b: Seq<u8>) -> int
    recommends
        b.len() >= 2,
{
    (b[0] as int) * 256 + (b[1] as int)
}

/// Whether the buffer starts with one complete frame.
pub open spec fn has_complete_frame(b: Seq<u8>) -> bool {
    b.len() >= 2 && b.len() >= 2 + announced_len(b)
}

/// The payloads of all complete frames at the front of the buffer.
pub open spec fn complete_payloads(b: Seq<u8>) -> Seq<Seq<u8>>
    decreases b.len(),
{
    if !has_complete_frame(b) {
        Seq::empty()
    } else {
        seq![b.subrange(2, 2 + announced_len(b))] + complete_payloads(
            b.skip(2 + announced_len(b)),
        )
    }
}

/// The unfinished tail after every complete frame is taken.
pub open spec fn leftover(b: Seq<u8>) -> Seq<u8>
    decreases b.len(),
{
    if !has_complete_frame(b) {
        b
    } else {
        leftover(b.skip(2 + announced_len(b)))
    }
}

/// A frame around `p`: big-endian length, then the payload.
pub open spec fn frame_spec(p: Seq<u8>) -> Seq<u8>
    recommends
        p.len() <= MAX_FRAME_PAYLOAD,
{
    seq![(p.len() / 256) as u8, (p.len() % 256) as u8] + p
}

/// The handshake payload carrying `id`.
pub open spec fn handshake_payload(id: Seq<u8>) -> Seq<u8> {
    seq![MSG_HANDSHAKE] + id
}

/// The node-announcement payload carrying this node's data.
pub open spec fn node_announcement_payload(
    id: Seq<u8>,
    alias: Seq<u8>,
    rgb: Seq<u8>,
    addresses: Seq<u8>,
) -> Seq<u8> {
    seq![MSG_NODE_ANNOUNCEMENT] + id + alias + rgb + addresses
}

/// The one-byte ping payload.
pub open spec fn ping_payload() -> Seq<u8> {
    seq![MSG_PING]
}

/// The one-byte pong payload.
pub open spec fn pong_payload() -> Seq<u8> {
    seq![MSG_PONG]
}

/// The announcement a node-announcement payload decodes to.
pub open spec fn node_announcement_of(p: Seq<u8>) -> NodeAnnouncementV
    recommends
        p.len() >= NODE_ANNOUNCEMENT_MIN_LEN,
{
    NodeAnnouncementV {
        node_id: p.subrange(1, 34),
        alias: p.subrange(34, 66),
        rgb: p.subrange(66, 69),
        addresses: p.skip(69),
    }
}

/// The announcement a channel-announcement payload decodes to.
pub open spec fn channel_announcement_of(p: Seq<u8>) -> ChannelAnnouncementV
    recommends
        p.len() == CHANNEL_ANNOUNCEMENT_LEN,
{
    ChannelAnnouncementV {
        node_a: p.subrange(1, 34),
        node_b: p.subrange(34, 67),
        scid: p.subrange(67, 75),
    }
}

/// Wraps `payload` in a frame.
pub fn encode_frame(payload: &Vec<u8>) -> (r: Vec<u8>)
    requires
        payload@.len() <= MAX_FRAME_PAYLOAD,
    ensures
        r@ == frame_spec(payload@),
{
    let mut r: Vec<u8> = Vec::new();
    let len = payload.len();
    r.push((len / 256) as u8);
    r.push((len % 256) as u8);
    append_bytes(&mut r, payload);
    proof {
        assert(r@ =~= frame_spec(payload@));
    }
    r
}

/// Decodes a node-announcement payload.
pub fn parse_node_announcement(p: &Vec<u8>) -> (r: NodeAnnouncementMsg)
    requires
        p@.len() >= NODE_ANNOUNCEMENT_MIN_LEN,
    ensures
        r@ == node_announcement_of(p@),
        r.wf(),
{
    NodeAnnouncementMsg {
        node_id: PeerIdentity { bytes: copy_range(p, 1, 34) },
        alias: copy_range(p, 34, 66),
        rgb: copy_range(p, 66, 69),
        addresses: copy_range(p, 69, p.len()),
    }
}

/// Decodes a channel-announcement payload.
pub fn parse_channel_announcement(p: &Vec<u8>) -> (r: ChannelAnnouncementMsg)
    requires
        p@.len() == CHANNEL_ANNOUNCEMENT_LEN,
    ensures
        r@ == channel_announcement_of(p@),
        r.wf(),
{
    ChannelAnnouncementMsg {
        node_a: PeerIdentity { bytes: copy_range(p, 1, 34) },
        node_b: PeerIdentity { bytes: copy_range(p, 34, 67) },
        scid: copy_range(p, 67, 75),
    }
}

/// Decodes a channel-update payload.
pub fn parse_channel_update(p: &Vec<u8>) -> (r: ChannelUpdateMsg)
    requires
        p@.len() == CHANNEL_UPDATE_LEN,
    ensures
        r@ == p@.subrange(1, 9),
        r.wf(),
{
    ChannelUpdateMsg { scid: copy_range(p, 1, 9) }
}

/// Takes every complete frame off the front of `buf`, leaving the
/// unfinished tail buffered.
pub fn extract_frames(buf: &mut Vec<u8>) -> (frames: Vec<Vec<u8>>)
    ensures
        frames@.map_values(|p: Vec<u8>| p@) == complete_payloads(old(buf)@),
        final(buf)@ == leftover(old(buf)@),
{
    let mut frames: Vec<Vec<u8>> = Vec::new();
    proof {
        assert(frames@.map_values(|p: Vec<u8>| p@) + complete_payloads(buf@) =~= complete_payloads(
            old(buf)@,
        ));
    }
    while buf.len() >= 2 && (buf[0] as usize) * 256 + (buf[1] as usize) + 2 <= buf.len()
        invariant
            frames@.map_values(|p: Vec<u8>| p@) + complete_payloads(buf@) == complete_payloads(
                old(buf)@,
            ),
            leftover(buf@) == leftover(old(buf)@),
        decreases buf@.len(),
    {
        let l = (buf[0] as usize) * 256 + (buf[1] as usize);
        let payload = copy_range(buf, 2, 2 + l);
        let rest = copy_range(buf, 2 + l, buf.len());
        let ghost prebuf = buf@;
        let ghost preframes = frames@;
        *buf = rest;
        frames.push(payload);
        proof {
            assert(has_complete_frame(prebuf));
            assert(announced_len(prebuf) == l);
            assert(buf@ =~= prebuf.skip(2 + l));
            assert(complete_payloads(prebuf) == seq![payload@] + complete_payloads(buf@));
            assert(frames@.map_values(|p: Vec<u8>| p@) =~= preframes.map_values(
                |p: Vec<u8>| p@,
            ).push(payload@));
            assert(frames@.map_values(|p: Vec<u8>| p@) + complete_payloads(buf@)
                =~= preframes.map_values(|p: Vec<u8>| p@) + complete_payloads(prebuf));
            assert(leftover(prebuf) == leftover(buf@));
        }
    }
    proof {
        assert(!has_complete_frame(buf@));
        assert(complete_payloads(buf@) =~= Seq::<Seq<u8>>::empty());
        assert(frames@.map_values(|p: Vec<u8>| p@) =~= frames@.map_values(|p: Vec<u8>| p@)
            + complete_payloads(buf@));
        assert(leftover(buf@) == buf@);
    }
    frames
}

} // verus!
