//! The peer session manager: lifecycle and dispatch for all peer sessions,
//! and the sole operation set a transport event loop drives.
//!
//! Each session binds one socket descriptor to at most one peer identity;
//! outbound sessions know their identity from the start, inbound sessions
//! learn it from the peer's handshake frame. A second connection for an
//! already-connected identity is rejected, the old session is kept.

use vstd::prelude::*;
use crate::bytes::{append_bytes, copy_bytes, copy_range};
use crate::errors::HandshakeError;
use crate::gossip::{GossipMessageHandler, store_after_refresh};
use crate::identity::{PeerIdentity, bytes_equal, is_valid_peer_key, same_identity, validate_peer_key};
use crate::messages::{ALIAS_LEN, RGB_LEN};
use crate::metadata::MetadataRecordV;
use crate::topology::{
    TopologyCacheV, cache_after_channel_announcement, cache_after_channel_update,
    cache_after_node_update,
};
use crate::wire::{
    CHANNEL_ANNOUNCEMENT_LEN, CHANNEL_UPDATE_LEN, MAX_FRAME_PAYLOAD, MSG_CHANNEL_ANNOUNCEMENT,
    MSG_CHANNEL_UPDATE, MSG_HANDSHAKE, MSG_NODE_ANNOUNCEMENT, MSG_PING, MSG_PONG,
    MSG_QUERY_CHANNEL_RANGE, MSG_QUERY_SHORT_CHANNEL_IDS, NODE_ANNOUNCEMENT_MIN_LEN,
    channel_announcement_of, complete_payloads, encode_frame, extract_frames, frame_spec,
    handshake_payload, leftover, node_announcement_of, node_announcement_payload,
    parse_channel_announcement, parse_channel_update, parse_node_announcement, ping_payload,
    pong_payload,
};

verus! {

/// Ticks an inbound session may sit without completing its handshake.
pub const HANDSHAKE_TIMEOUT_TICKS: u64 = 2;

/// Ticks an established session may leave a ping unanswered.
pub const KEEPALIVE_TIMEOUT_TICKS: u64 = 2;

/// View of one peer session.
#[verifier::ext_equal]
pub struct SessionV {
    pub identity: Option<Seq<u8>>,
    pub descriptor: u64,
    pub inbound: Seq<u8>,
    pub outbound: Seq<u8>,
    pub writable: bool,
    pub ticks: u64,
    pub awaiting_pong: bool,
}

/// One peer session: a socket descriptor, the identity once known, the
/// buffered inbound and outbound bytes, and keepalive bookkeeping.
#[derive(Debug)]
pub struct PeerSession {
    pub identity: Option<PeerIdentity>,
    pub descriptor: u64,
    pub inbound: Vec<u8>,
    pub outbound: Vec<u8>,
    pub writable: bool,
    pub ticks: u64,
    pub awaiting_pong: bool,
}

impl View for PeerSession {
    type V = SessionV;

    open spec fn view(&self) -> SessionV {
        SessionV {
            identity: match self.identity {
                Some(id) => Some(id@),
                None => None,
            },
            descriptor: self.descriptor,
            inbound: self.inbound@,
            outbound: self.outbound@,
            writable: self.writable,
            ticks: self.ticks,
            awaiting_pong: self.awaiting_pong,
        }
    }
}

/// View of the whole manager.
#[verifier::ext_equal]
pub struct ManagerV {
    pub our_id: Seq<u8>,
    pub sessions: Seq<SessionV>,
    pub store: Seq<MetadataRecordV>,
    pub store_accepting: bool,
    pub cache: TopologyCacheV,
}

/// The peer session manager.
pub struct PeerSessionManager {
    pub our_id: PeerIdentity,
    pub sessions: Vec<PeerSession>,
    pub gossip: GossipMessageHandler,
}

impl View for PeerSessionManager {
    type V = ManagerV;

    open spec fn view(&self) -> ManagerV {
        ManagerV {
            our_id: self.our_id@,
            sessions: self.sessions@.map_values(|s: PeerSession| s@),
            store: self.gossip.store@,
            store_accepting: self.gossip.store.accepting_writes,
            cache: self.gossip.cache@,
        }
    }
}

/// Whether some session is bound to descriptor `d`.
pub open spec fn has_descriptor(s: Seq<SessionV>, d: u64) -> bool {
    exists|i: int| 0 <= i < s.len() && s[i].descriptor == d
}

/// Index of the first session bound to descriptor `d`, or `-1`.
pub open spec fn desc_index(s: Seq<SessionV>, d: u64) -> int
    decreases s.len(),
{
    if s.len() == 0 {
        -1
    } else if s[0].descriptor == d {
        0
    } else {
        let r = desc_index(s.skip(1), d);
        if r < 0 {
            -1
        } else {
            r + 1
        }
    }
}

/// If `s[i]` is the first session bound to `d`, `desc_index` is `i`.
pub proof fn lemma_desc_index_at(s: Seq<SessionV>, d: u64, i: int)
    requires
        0 <= i < s.len(),
        s[i].descriptor == d,
        forall|j: int| 0 <= j < i ==> s[j].descriptor != d,
    ensures
        desc_index(s, d) == i,
    decreases s.len(),
{
    if i > 0 {
        assert forall|j: int| 0 <= j < i - 1 implies s.skip(1)[j].descriptor != d by {
            assert(s.skip(1)[j] == s[j + 1]);
        }
        assert(s.skip(1)[i - 1] == s[i]);
        lemma_desc_index_at(s.skip(1), d, i - 1);
    }
}

/// `desc_index` finds a session exactly when one is bound to `d`.
pub proof fn lemma_desc_index(s: Seq<SessionV>, d: u64)
    ensures
        has_descriptor(s, d) <==> 0 <= desc_index(s, d) < s.len(),
        desc_index(s, d) >= 0 ==> s[desc_index(s, d)].descriptor == d,
        !has_descriptor(s, d) ==> desc_index(s, d) == -1,
    decreases s.len(),
{
    if s.len() > 0 && s[0].descriptor != d {
        lemma_desc_index(s.skip(1), d);
        assert forall|i: int| 0 <= i < s.len() && s[i].descriptor == d implies has_descriptor(
            s.skip(1),
            d,
        ) by {
            assert(s.skip(1)[i - 1] == s[i]);
        }
    }
}

/// Whether identity `id` has a live session.
pub open spec fn id_connected(s: Seq<SessionV>, id: Seq<u8>) -> bool {
    exists|i: int| 0 <= i < s.len() && s[i].identity == Some(id)
}

/// The identities of the connected sessions, in session order.
pub open spec fn connected_ids(s: Seq<SessionV>) -> Seq<Seq<u8>>
    decreases s.len(),
{
    if s.len() == 0 {
        Seq::empty()
    } else {
        connected_ids(s.drop_last()) + match s.last().identity {
            Some(id) => seq![id],
            None => Seq::empty(),
        }
    }
}

/// The sessions left when the one bound to `d`, if any, is dropped.
pub open spec fn remove_by_descriptor(s: Seq<SessionV>, d: u64) -> Seq<SessionV>
    decreases s.len(),
{
    if s.len() == 0 {
        Seq::empty()
    } else {
        remove_by_descriptor(s.drop_last(), d) + if s.last().descriptor == d {
            Seq::empty()
        } else {
            seq![s.last()]
        }
    }
}

/// The sessions left when those carrying identity `id` are dropped.
pub open spec fn remove_by_identity(s: Seq<SessionV>, id: Seq<u8>) -> Seq<SessionV>
    decreases s.len(),
{
    if s.len() == 0 {
        Seq::empty()
    } else {
        remove_by_identity(s.drop_last(), id) + if s.last().identity == Some(id) {
            Seq::empty()
        } else {
            seq![s.last()]
        }
    }
}

/// The fresh session an accepted outbound connection registers.
pub open spec fn new_outbound_session(id: Seq<u8>, d: u64) -> SessionV {
    SessionV {
        identity: Some(id),
        descriptor: d,
        inbound: Seq::empty(),
        outbound: Seq::empty(),
        writable: true,
        ticks: 0,
        awaiting_pong: false,
    }
}

/// The fresh session an accepted inbound connection registers.
pub open spec fn new_inbound_session(d: u64) -> SessionV {
    SessionV {
        identity: None,
        descriptor: d,
        inbound: Seq::empty(),
        outbound: Seq::empty(),
        writable: true,
        ticks: 0,
        awaiting_pong: false,
    }
}

impl PeerSessionManager {
    /// A manager for this node's identity, with no sessions yet.
    pub fn new(our_id: PeerIdentity, gossip: GossipMessageHandler) -> (r: PeerSessionManager)
        requires
            our_id.wf(),
        ensures
            r@.our_id == our_id@,
            r@.sessions.len() == 0,
            r.gossip == gossip,
            r.our_id.wf(),
    {
        let r = PeerSessionManager { our_id, sessions: Vec::new(), gossip };
        proof {
            assert(r@.sessions =~= Seq::<SessionV>::empty());
        }
        r
    }

    /// Every currently connected counterparty, in session order;
    /// side-effect-free.
    pub fn list_connected_identities(&self) -> (r: Vec<PeerIdentity>)
        ensures
            r@.map_values(|p: PeerIdentity| p@) == connected_ids(self@.sessions),
    {
        let mut r: Vec<PeerIdentity> = Vec::new();
        let n = self.sessions.len();
        let mut k: usize = 0;
        proof {
            assert(self@.sessions.take(0) =~= Seq::<SessionV>::empty());
            assert(r@.map_values(|p: PeerIdentity| p@) =~= connected_ids(self@.sessions.take(0)));
        }
        while k < n
            invariant
                k <= n,
                n == self.sessions@.len(),
                self@.sessions.len() == n,
                r@.map_values(|p: PeerIdentity| p@) == connected_ids(self@.sessions.take(k as int)),
            decreases n - k,
        {
            let ghost pre = r@;
            match &self.sessions[k].identity {
                Some(id) => {
                    r.push(PeerIdentity { bytes: copy_bytes(&id.bytes) });
                    proof {
                        assert(r@.map_values(|p: PeerIdentity| p@) =~= pre.map_values(
                            |p: PeerIdentity| p@,
                        ).push(self@.sessions[k as int].identity.unwrap()));
                    }
                },
                None => {},
            }
            proof {
                let t1 = self@.sessions.take(k + 1);
                assert(t1.drop_last() =~= self@.sessions.take(k as int));
                assert(t1.last() == self@.sessions[k as int]);
                assert(r@.map_values(|p: PeerIdentity| p@) =~= connected_ids(t1));
            }
            k += 1;
        }
        proof {
            assert(self@.sessions.take(n as int) =~= self@.sessions);
        }
        r
    }

    /// Whether identity `id` has a live session.
    pub fn is_connected(&self, id: &PeerIdentity) -> (r: bool)
        ensures
            r == id_connected(self@.sessions, id@),
    {
        let n = self.sessions.len();
        let mut k: usize = 0;
        while k < n
            invariant
                k <= n,
                n == self.sessions@.len(),
                self@.sessions.len() == n,
                forall|j: int| 0 <= j < k ==> self@.sessions[j].identity != Some(id@),
            decreases n - k,
        {
            match &self.sessions[k].identity {
                Some(existing) => {
                    if same_identity(existing, id) {
                        proof {
                            assert(id_connected(self@.sessions, id@)) by {
                                assert(self@.sessions[k as int].identity == Some(id@));
                            }
                        }
                        return true;
                    }
                },
                None => {},
            }
            k += 1;
        }
        false
    }

    /// Index of the session bound to descriptor `d`, if any.
    fn find_descriptor(&self, d: u64) -> (r: Option<usize>)
        ensures
            match r {
                Some(i) => i == desc_index(self@.sessions, d) && i < self@.sessions.len()
                    && self@.sessions[i as int].descriptor == d,
                None => !has_descriptor(self@.sessions, d),
            },
    {
        let n = self.sessions.len();
        let mut k: usize = 0;
        while k < n
            invariant
                k <= n,
                n == self.sessions@.len(),
                self@.sessions.len() == n,
                forall|j: int| 0 <= j < k ==> self@.sessions[j].descriptor != d,
            decreases n - k,
        {
            if self.sessions[k].descriptor == d {
                proof {
                    lemma_desc_index_at(self@.sessions, d, k as int);
                }
                return Some(k);
            }
            k += 1;
        }
        None
    }

    /// Begins an outbound session to `identity` over descriptor
    /// `descriptor`; `remote_address` is advisory and kept out of the
    /// session state. On success the returned bytes must be written to the
    /// transport immediately. Rejected when the identity is not a
    /// well-formed key, when the identity is already connected, or when the
    /// descriptor is already in use.
    pub fn connect_outbound(
        &mut self,
        identity: PeerIdentity,
        descriptor: u64,
        remote_address: Option<Vec<u8>>,
    ) -> (r: Result<Vec<u8>, HandshakeError>)
        requires
            old(self).our_id.wf(),
        ensures
            final(self).our_id == old(self).our_id,
            r is Ok <==> is_valid_peer_key(identity@) && !id_connected(
                old(self)@.sessions,
                identity@,
            ) && !has_descriptor(old(self)@.sessions, descriptor),
            match r {
                Ok(bytes) => final(self)@ == (ManagerV {
                    sessions: old(self)@.sessions.push(
                        new_outbound_session(identity@, descriptor),
                    ),
                    ..old(self)@
                }) && bytes@ == frame_spec(handshake_payload(old(self)@.our_id)),
                Err(e) => final(self)@ == old(self)@ && if !is_valid_peer_key(identity@) {
                    e == HandshakeError::InvalidIdentity
                } else if id_connected(old(self)@.sessions, identity@) {
                    e == HandshakeError::AlreadyConnected
                } else {
                    e == HandshakeError::DescriptorInUse
                },
            },
    {
        let _ = remote_address;
        if !validate_peer_key(identity.bytes.as_slice()) {
            return Err(HandshakeError::InvalidIdentity);
        }
        if self.is_connected(&identity) {
            return Err(HandshakeError::AlreadyConnected);
        }
        if self.find_descriptor(descriptor).is_some() {
            proof {
                lemma_desc_index(self@.sessions, descriptor);
            }
            return Err(HandshakeError::DescriptorInUse);
        }
        let session = PeerSession {
            identity: Some(identity),
            descriptor,
            inbound: Vec::new(),
            outbound: Vec::new(),
            writable: true,
            ticks: 0,
            awaiting_pong: false,
        };
        let ghost pre = self@;
        self.sessions.push(session);
        proof {
            assert(self@.sessions =~= pre.sessions.push(
                new_outbound_session(identity@, descriptor),
            ));
            assert(self@ =~= (ManagerV {
                sessions: pre.sessions.push(new_outbound_session(identity@, descriptor)),
                ..pre
            }));
        }
        let mut payload: Vec<u8> = Vec::new();
        payload.push(MSG_HANDSHAKE);
        append_bytes(&mut payload, &self.our_id.bytes);
        proof {
            assert(payload@ =~= handshake_payload(self@.our_id));
        }
        Ok(encode_frame(&payload))
    }

    /// Begins an inbound session over descriptor `descriptor`; the peer's
    /// identity is learned from its handshake frame, and no bytes are owed
    /// yet. Rejected only when the descriptor is already in use.
    pub fn accept_inbound(&mut self, descriptor: u64, remote_address: Option<Vec<u8>>) -> (r:
        Result<(), HandshakeError>)
        ensures
            final(self).our_id == old(self).our_id,
            r is Ok <==> !has_descriptor(old(self)@.sessions, descriptor),
            match r {
                Ok(()) => final(self)@ == (ManagerV {
                    sessions: old(self)@.sessions.push(new_inbound_session(descriptor)),
                    ..old(self)@
                }),
                Err(e) => final(self)@ == old(self)@ && e == HandshakeError::DescriptorInUse,
            },
    {
        let _ = remote_address;
        if self.find_descriptor(descriptor).is_some() {
            proof {
                lemma_desc_index(self@.sessions, descriptor);
            }
            return Err(HandshakeError::DescriptorInUse);
        }
        let session = PeerSession {
            identity: None,
            descriptor,
            inbound: Vec::new(),
            outbound: Vec::new(),
            writable: true,
            ticks: 0,
            awaiting_pong: false,
        };
        let ghost pre = self@;
        self.sessions.push(session);
        proof {
            assert(self@.sessions =~= pre.sessions.push(new_inbound_session(descriptor)));
            assert(self@ =~= (ManagerV {
                sessions: pre.sessions.push(new_inbound_session(descriptor)),
                ..pre
            }));
        }
        Ok(())
    }

    /// Marks the session's transport as ready for more outbound bytes; must
    /// be called on every write-readiness report, or backpressure stalls the
    /// session.
    pub fn notify_writable(&mut self, descriptor: u64) -> (r: Result<(), HandshakeError>)
        ensures
            final(self).our_id == old(self).our_id,
            r is Ok <==> has_descriptor(old(self)@.sessions, descriptor),
            match r {
                Ok(()) => ({
                    let i = desc_index(old(self)@.sessions, descriptor);
                    final(self)@ == (ManagerV {
                        sessions: old(self)@.sessions.update(
                            i,
                            SessionV { writable: true, ..old(self)@.sessions[i] },
                        ),
                        ..old(self)@
                    })
                }),
                Err(e) => final(self)@ == old(self)@ && e == HandshakeError::UnknownDescriptor,
            },
    {
        match self.find_descriptor(descriptor) {
            None => Err(HandshakeError::UnknownDescriptor),
            Some(i) => {
                proof {
                    lemma_desc_index(self@.sessions, descriptor);
                }
                let replacement = copy_session_with_writable(&self.sessions[i], true);
                let ghost pre = self@;
                self.sessions[i] = replacement;
                proof {
                    assert(self@.sessions =~= pre.sessions.update(
                        i as int,
                        SessionV { writable: true, ..pre.sessions[i as int] },
                    ));
                    assert(self@ =~= (ManagerV {
                        sessions: pre.sessions.update(
                            i as int,
                            SessionV { writable: true, ..pre.sessions[i as int] },
                        ),
                        ..pre
                    }));
                }
                Ok(())
            },
        }
    }

    /// Forcibly ends the session with `identity`; a no-op, and never an
    /// error, when the identity is not connected.
    pub fn disconnect(&mut self, identity: &PeerIdentity)
        ensures
            final(self).our_id == old(self).our_id,
            final(self)@ == (ManagerV {
                sessions: remove_by_identity(old(self)@.sessions, identity@),
                ..old(self)@
            }),
    {
        let mut kept: Vec<PeerSession> = Vec::new();
        let n = self.sessions.len();
        let mut k: usize = 0;
        proof {
            assert(self@.sessions.take(0) =~= Seq::<SessionV>::empty());
            assert(kept@.map_values(|s: PeerSession| s@) =~= remove_by_identity(
                self@.sessions.take(0),
                identity@,
            ));
        }
        while k < n
            invariant
                k <= n,
                n == self.sessions@.len(),
                self@.sessions.len() == n,
                kept@.map_values(|s: PeerSession| s@) == remove_by_identity(
                    self@.sessions.take(k as int),
                    identity@,
                ),
            decreases n - k,
        {
            let keep = match &self.sessions[k].identity {
                Some(existing) => !same_identity(existing, identity),
                None => true,
            };
            let ghost pre = kept@;
            if keep {
                kept.push(copy_session(&self.sessions[k]));
                proof {
                    assert(kept@.map_values(|s: PeerSession| s@) =~= pre.map_values(
                        |s: PeerSession| s@,
                    ).push(self@.sessions[k as int]));
                }
            }
            proof {
                let t1 = self@.sessions.take(k + 1);
                assert(t1.drop_last() =~= self@.sessions.take(k as int));
                assert(t1.last() == self@.sessions[k as int]);
                assert(kept@.map_values(|s: PeerSession| s@) =~= remove_by_identity(t1, identity@));
            }
            k += 1;
        }
        let ghost pre = self@;
        self.sessions = kept;
        proof {
            assert(pre.sessions.take(n as int) =~= pre.sessions);
            assert(self@ =~= (ManagerV {
                sessions: remove_by_identity(pre.sessions, identity@),
                ..pre
            }));
        }
    }

    /// Tears down whatever session is bound to `descriptor`; idempotent.
    pub fn on_socket_closed(&mut self, descriptor: u64)
        ensures
            final(self).our_id == old(self).our_id,
            final(self)@ == (ManagerV {
                sessions: remove_by_descriptor(old(self)@.sessions, descriptor),
                ..old(self)@
            }),
    {
        let mut kept: Vec<PeerSession> = Vec::new();
        let n = self.sessions.len();
        let mut k: usize = 0;
        proof {
            assert(self@.sessions.take(0) =~= Seq::<SessionV>::empty());
            assert(kept@.map_values(|s: PeerSession| s@) =~= remove_by_descriptor(
                self@.sessions.take(0),
                descriptor,
            ));
        }
        while k < n
            invariant
                k <= n,
                n == self.sessions@.len(),
                self@.sessions.len() == n,
                kept@.map_values(|s: PeerSession| s@) == remove_by_descriptor(
                    self@.sessions.take(k as int),
                    descriptor,
                ),
            decreases n - k,
        {
            let ghost pre = kept@;
            if self.sessions[k].descriptor != descriptor {
                kept.push(copy_session(&self.sessions[k]));
                proof {
                    assert(kept@.map_values(|s: PeerSession| s@) =~= pre.map_values(
                        |s: PeerSession| s@,
                    ).push(self@.sessions[k as int]));
                }
            }
            proof {
                let t1 = self@.sessions.take(k + 1);
                assert(t1.drop_last() =~= self@.sessions.take(k as int));
                assert(t1.last() == self@.sessions[k as int]);
                assert(kept@.map_values(|s: PeerSession| s@) =~= remove_by_descriptor(
                    t1,
                    descriptor,
                ));
            }
            k += 1;
        }
        let ghost pre = self@;
        self.sessions = kept;
        proof {
            assert(pre.sessions.take(n as int) =~= pre.sessions);
            assert(self@ =~= (ManagerV {
                sessions: remove_by_descriptor(pre.sessions, descriptor),
                ..pre
            }));
        }
    }

    /// Ends every session; used at shutdown. The store and cache are kept.
    pub fn disconnect_all(&mut self)
        ensures
            final(self).our_id == old(self).our_id,
            final(self)@ == (ManagerV { sessions: Seq::empty(), ..old(self)@ }),
    {
        let ghost pre = self@;
        self.sessions = Vec::new();
        proof {
            assert(self@.sessions =~= Seq::<SessionV>::empty());
            assert(self@ =~= (ManagerV { sessions: Seq::empty(), ..pre }));
        }
    }
}

/// The session a flush leaves behind: pending bytes handed out, the
/// transport not yet writable again.
pub open spec fn flushed_session(s: SessionV) -> SessionV {
    if s.writable && s.outbound.len() > 0 {
        SessionV { outbound: Seq::empty(), writable: false, ..s }
    } else {
        s
    }
}

/// The actions a flush hands the caller, in session order.
pub open spec fn flushed_actions(s: Seq<SessionV>) -> Seq<(u64, Seq<u8>)>
    decreases s.len(),
{
    if s.len() == 0 {
        Seq::empty()
    } else {
        flushed_actions(s.drop_last()) + if s.last().writable && s.last().outbound.len() > 0 {
            seq![(s.last().descriptor, s.last().outbound)]
        } else {
            Seq::empty()
        }
    }
}

/// What one timer tick does to one session: `None` evicts it.
pub open spec fn ticked_session(s: SessionV) -> Option<SessionV> {
    if s.identity is None {
        if s.ticks + 1 >= HANDSHAKE_TIMEOUT_TICKS {
            None
        } else {
            Some(SessionV { ticks: (s.ticks + 1) as u64, ..s })
        }
    } else if s.awaiting_pong {
        if s.ticks + 1 >= KEEPALIVE_TIMEOUT_TICKS {
            None
        } else {
            Some(SessionV { ticks: (s.ticks + 1) as u64, ..s })
        }
    } else {
        Some(
            SessionV {
                outbound: s.outbound + frame_spec(ping_payload()),
                awaiting_pong: true,
                ticks: 0,
                ..s
            },
        )
    }
}

/// What one timer tick does to the session table.
pub open spec fn ticked_sessions(s: Seq<SessionV>) -> Seq<SessionV>
    decreases s.len(),
{
    if s.len() == 0 {
        Seq::empty()
    } else {
        ticked_sessions(s.drop_last()) + match ticked_session(s.last()) {
            Some(t) => seq![t],
            None => Seq::empty(),
        }
    }
}

/// The session after a broadcast frame is queued on it, if it is connected.
pub open spec fn broadcast_session(s: SessionV, frame: Seq<u8>) -> SessionV {
    if s.identity is Some {
        SessionV { outbound: s.outbound + frame, ..s }
    } else {
        s
    }
}

/// What dispatching one decoded payload does to the manager whose session
/// `i` received it: `None` is a session-fatal decode or handshake error.
pub open spec fn step_payload(m: ManagerV, i: int, p: Seq<u8>) -> Option<ManagerV>
    recommends
        0 <= i < m.sessions.len(),
{
    if p.len() == 0 {
        None
    } else if p[0] == MSG_HANDSHAKE {
        if p.len() != 34 {
            None
        } else {
            let id = p.subrange(1, 34);
            match m.sessions[i].identity {
                Some(existing) => if existing == id {
                    Some(m)
                } else {
                    None
                },
                None => if is_valid_peer_key(id) && !id_connected(m.sessions, id) {
                    Some(
                        ManagerV {
                            sessions: m.sessions.update(
                                i,
                                SessionV {
                                    identity: Some(id),
                                    outbound: m.sessions[i].outbound + frame_spec(
                                        handshake_payload(m.our_id),
                                    ),
                                    ticks: 0,
                                    ..m.sessions[i]
                                },
                            ),
                            ..m
                        },
                    )
                } else {
                    None
                },
            }
        }
    } else if m.sessions[i].identity is None {
        None
    } else if p[0] == MSG_NODE_ANNOUNCEMENT {
        if p.len() < NODE_ANNOUNCEMENT_MIN_LEN {
            None
        } else {
            let ann = node_announcement_of(p);
            Some(
                ManagerV {
                    store: store_after_refresh(m.store, m.store_accepting, ann),
                    cache: cache_after_node_update(m.cache, ann),
                    ..m
                },
            )
        }
    } else if p[0] == MSG_CHANNEL_ANNOUNCEMENT {
        if p.len() != CHANNEL_ANNOUNCEMENT_LEN {
            None
        } else {
            Some(
                ManagerV {
                    cache: cache_after_channel_announcement(m.cache, channel_announcement_of(p)),
                    ..m
                },
            )
        }
    } else if p[0] == MSG_CHANNEL_UPDATE {
        if p.len() != CHANNEL_UPDATE_LEN {
            None
        } else {
            Some(ManagerV { cache: cache_after_channel_update(m.cache, p.subrange(1, 9)), ..m })
        }
    } else if p[0] == MSG_PING {
        if p.len() != 1 {
            None
        } else {
            Some(
                ManagerV {
                    sessions: m.sessions.update(
                        i,
                        SessionV {
                            outbound: m.sessions[i].outbound + frame_spec(pong_payload()),
                            ..m.sessions[i]
                        },
                    ),
                    ..m
                },
            )
        }
    } else if p[0] == MSG_PONG {
        if p.len() != 1 {
            None
        } else {
            Some(
                ManagerV {
                    sessions: m.sessions.update(
                        i,
                        SessionV { awaiting_pong: false, ticks: 0, ..m.sessions[i] },
                    ),
                    ..m
                },
            )
        }
    } else if p[0] == MSG_QUERY_CHANNEL_RANGE || p[0] == MSG_QUERY_SHORT_CHANNEL_IDS {
        Some(m)
    } else {
        None
    }
}

/// Folds `step_payload` over a run of decoded payloads.
pub open spec fn step_all(m: ManagerV, i: int, ps: Seq<Seq<u8>>) -> Option<ManagerV>
    decreases ps.len(),
{
    if ps.len() == 0 {
        Some(m)
    } else {
        match step_payload(m, i, ps[0]) {
            None => None,
            Some(m2) => step_all(m2, i, ps.skip(1)),
        }
    }
}

/// The manager once session `i` has buffered `data` and shed its complete
/// frames, before any of them is dispatched.
pub open spec fn buffered_at(m: ManagerV, i: int, data: Seq<u8>) -> ManagerV
    recommends
        0 <= i < m.sessions.len(),
{
    ManagerV {
        sessions: m.sessions.update(
            i,
            SessionV { inbound: leftover(m.sessions[i].inbound + data), ..m.sessions[i] },
        ),
        ..m
    }
}

/// The manager after session `i` received `data`: the complete frames of
/// the buffered bytes dispatched in order, or `None` on a fatal error.
pub open spec fn received_result(m: ManagerV, i: int, data: Seq<u8>) -> Option<ManagerV>
    recommends
        0 <= i < m.sessions.len(),
{
    step_all(buffered_at(m, i, data), i, complete_payloads(m.sessions[i].inbound + data))
}

impl PeerSessionManager {
    /// Dispatches one decoded payload for session `i`, exactly as
    /// `step_payload` says; an error leaves the manager unchanged and the
    /// caller must close the connection.
    fn dispatch_payload(&mut self, i: usize, payload: &Vec<u8>) -> (r: Result<(), HandshakeError>)
        requires
            old(self).our_id.wf(),
            i < old(self)@.sessions.len(),
        ensures
            final(self).our_id == old(self).our_id,
            final(self)@.sessions.len() == old(self)@.sessions.len(),
            match r {
                Ok(()) => Some(final(self)@) == step_payload(old(self)@, i as int, payload@),
                Err(_) => step_payload(old(self)@, i as int, payload@) is None && final(self)@
                    == old(self)@,
            },
    {
        if payload.len() == 0 {
            return Err(HandshakeError::MalformedInput);
        }
        let t = payload[0];
        if t == MSG_HANDSHAKE {
            if payload.len() != 34 {
                return Err(HandshakeError::MalformedInput);
            }
            let id_bytes = copy_range(payload, 1, 34);
            if self.sessions[i].identity.is_some() {
                let matches_existing = match &self.sessions[i].identity {
                    Some(existing) => bytes_equal(&existing.bytes, &id_bytes),
                    None => false,
                };
                if matches_existing {
                    return Ok(());
                } else {
                    return Err(HandshakeError::AlreadyConnected);
                }
            }
            if !validate_peer_key(id_bytes.as_slice()) {
                return Err(HandshakeError::InvalidIdentity);
            }
            let candidate = PeerIdentity { bytes: copy_bytes(&id_bytes) };
            if self.is_connected(&candidate) {
                return Err(HandshakeError::AlreadyConnected);
            }
            let mut reply_payload: Vec<u8> = Vec::new();
            reply_payload.push(MSG_HANDSHAKE);
            append_bytes(&mut reply_payload, &self.our_id.bytes);
            proof {
                assert(reply_payload@ =~= handshake_payload(self@.our_id));
            }
            let reply = encode_frame(&reply_payload);
            let mut ns = copy_session(&self.sessions[i]);
            ns.identity = Some(PeerIdentity { bytes: id_bytes });
            append_bytes(&mut ns.outbound, &reply);
            ns.ticks = 0;
            let ghost pre = self@;
            let ghost target = (SessionV {
                identity: Some(payload@.subrange(1, 34)),
                outbound: pre.sessions[i as int].outbound + frame_spec(
                    handshake_payload(pre.our_id),
                ),
                ticks: 0,
                ..pre.sessions[i as int]
            });
            self.sessions[i] = ns;
            proof {
                assert(ns@ =~= target);
                assert(self@.sessions =~= pre.sessions.update(i as int, target));
                assert(self@ =~= (ManagerV {
                    sessions: pre.sessions.update(i as int, target),
                    ..pre
                }));
                assert(Some(self@) == step_payload(pre, i as int, payload@));
            }
            Ok(())
        } else if self.sessions[i].identity.is_none() {
            Err(HandshakeError::MalformedInput)
        } else if t == MSG_NODE_ANNOUNCEMENT {
            if payload.len() < NODE_ANNOUNCEMENT_MIN_LEN {
                return Err(HandshakeError::MalformedInput);
            }
            let msg = parse_node_announcement(payload);
            let ghost pre = self@;
            let _ = self.gossip.handle_node_announcement(&msg);
            proof {
                assert(self@ =~= (ManagerV {
                    store: store_after_refresh(
                        pre.store,
                        pre.store_accepting,
                        node_announcement_of(payload@),
                    ),
                    cache: cache_after_node_update(pre.cache, node_announcement_of(payload@)),
                    ..pre
                }));
                assert(Some(self@) == step_payload(pre, i as int, payload@));
            }
            Ok(())
        } else if t == MSG_CHANNEL_ANNOUNCEMENT {
            if payload.len() != CHANNEL_ANNOUNCEMENT_LEN {
                return Err(HandshakeError::MalformedInput);
            }
            let msg = parse_channel_announcement(payload);
            let ghost pre = self@;
            let _ = self.gossip.handle_channel_announcement(&msg);
            proof {
                assert(self@ =~= (ManagerV {
                    cache: cache_after_channel_announcement(
                        pre.cache,
                        channel_announcement_of(payload@),
                    ),
                    ..pre
                }));
                assert(Some(self@) == step_payload(pre, i as int, payload@));
            }
            Ok(())
        } else if t == MSG_CHANNEL_UPDATE {
            if payload.len() != CHANNEL_UPDATE_LEN {
                return Err(HandshakeError::MalformedInput);
            }
            let msg = parse_channel_update(payload);
            let ghost pre = self@;
            let _ = self.gossip.handle_channel_update(&msg);
            proof {
                assert(self@ =~= (ManagerV {
                    cache: cache_after_channel_update(pre.cache, payload@.subrange(1, 9)),
                    ..pre
                }));
                assert(Some(self@) == step_payload(pre, i as int, payload@));
            }
            Ok(())
        } else if t == MSG_PING {
            if payload.len() != 1 {
                return Err(HandshakeError::MalformedInput);
            }
            let mut pong_bytes: Vec<u8> = Vec::new();
            pong_bytes.push(MSG_PONG);
            proof {
                assert(pong_bytes@ =~= pong_payload());
            }
            let pong = encode_frame(&pong_bytes);
            let mut ns = copy_session(&self.sessions[i]);
            append_bytes(&mut ns.outbound, &pong);
            let ghost pre = self@;
            let ghost target = (SessionV {
                outbound: pre.sessions[i as int].outbound + frame_spec(pong_payload()),
                ..pre.sessions[i as int]
            });
            self.sessions[i] = ns;
            proof {
                assert(ns@ =~= target);
                assert(self@.sessions =~= pre.sessions.update(i as int, target));
                assert(self@ =~= (ManagerV {
                    sessions: pre.sessions.update(i as int, target),
                    ..pre
                }));
                assert(Some(self@) == step_payload(pre, i as int, payload@));
            }
            Ok(())
        } else if t == MSG_PONG {
            if payload.len() != 1 {
                return Err(HandshakeError::MalformedInput);
            }
            let mut ns = copy_session(&self.sessions[i]);
            ns.awaiting_pong = false;
            ns.ticks = 0;
            let ghost pre = self@;
            let ghost target = (SessionV { awaiting_pong: false, ticks: 0, ..pre.sessions[
                i as int
            ] });
            self.sessions[i] = ns;
            proof {
                assert(ns@ =~= target);
                assert(self@.sessions =~= pre.sessions.update(i as int, target));
                assert(self@ =~= (ManagerV {
                    sessions: pre.sessions.update(i as int, target),
                    ..pre
                }));
                assert(Some(self@) == step_payload(pre, i as int, payload@));
            }
            Ok(())
        } else if t == MSG_QUERY_CHANNEL_RANGE || t == MSG_QUERY_SHORT_CHANNEL_IDS {
            // Bulk-sync queries are accepted but served nothing.
            Ok(())
        } else {
            Err(HandshakeError::MalformedInput)
        }
    }

    /// Feeds bytes the transport read for `descriptor`: buffers them,
    /// decodes every now-complete frame, and dispatches each in order.
    /// Partial frames stay buffered across calls. Returns whether the
    /// caller should keep the connection open; an error means the
    /// connection must be closed.
    pub fn on_bytes_received(&mut self, descriptor: u64, data: &Vec<u8>) -> (r: Result<
        bool,
        HandshakeError,
    >)
        requires
            old(self).our_id.wf(),
        ensures
            final(self).our_id == old(self).our_id,
            r is Ok <==> has_descriptor(old(self)@.sessions, descriptor) && received_result(
                old(self)@,
                desc_index(old(self)@.sessions, descriptor),
                data@,
            ) is Some,
            match r {
                Ok(keep) => keep == true && Some(final(self)@) == received_result(
                    old(self)@,
                    desc_index(old(self)@.sessions, descriptor),
                    data@,
                ),
                Err(e) => !has_descriptor(old(self)@.sessions, descriptor) ==> e
                    == HandshakeError::UnknownDescriptor && final(self)@ == old(self)@,
            },
    {
        let found = self.find_descriptor(descriptor);
        match found {
            None => Err(HandshakeError::UnknownDescriptor),
            Some(i) => {
                let mut sess = copy_session(&self.sessions[i]);
                append_bytes(&mut sess.inbound, data);
                let ghost buffered = sess.inbound@;
                let frames = extract_frames(&mut sess.inbound);
                let ghost pre = self@;
                self.sessions[i] = sess;
                proof {
                    assert(buffered == pre.sessions[i as int].inbound + data@);
                    assert(self@.sessions =~= pre.sessions.update(
                        i as int,
                        SessionV { inbound: leftover(buffered), ..pre.sessions[i as int] },
                    ));
                    assert(self@ =~= buffered_at(pre, i as int, data@));
                }
                let ghost m1 = self@;
                let ghost payloads = complete_payloads(buffered);
                let n = frames.len();
                let mut k: usize = 0;
                proof {
                    assert(payloads.skip(0) =~= payloads);
                }
                while k < n
                    invariant
                        k <= n,
                        n == frames@.len(),
                        self.our_id == old(self).our_id,
                        self.our_id.wf(),
                        i < self@.sessions.len(),
                        i == desc_index(old(self)@.sessions, descriptor),
                        has_descriptor(old(self)@.sessions, descriptor),
                        frames@.map_values(|p: Vec<u8>| p@) == payloads,
                        step_all(m1, i as int, payloads) == step_all(
                            self@,
                            i as int,
                            payloads.skip(k as int),
                        ),
                        received_result(old(self)@, i as int, data@) == step_all(
                            m1,
                            i as int,
                            payloads,
                        ),
                    decreases n - k,
                {
                    let ghost before = self@;
                    let res = self.dispatch_payload(i, &frames[k]);
                    match res {
                        Err(e) => {
                            proof {
                                assert(payloads.skip(k as int)[0] == frames@[k as int]@);
                                assert(step_all(before, i as int, payloads.skip(k as int))
                                    is None);
                            }
                            return Err(e);
                        },
                        Ok(()) => {
                            proof {
                                assert(payloads.skip(k as int)[0] == frames@[k as int]@);
                                assert(payloads.skip(k as int).skip(1) =~= payloads.skip(
                                    k as int + 1,
                                ));
                            }
                        },
                    }
                    k += 1;
                }
                proof {
                    assert(payloads.skip(n as int) =~= Seq::<Seq<u8>>::empty());
                }
                Ok(true)
            },
        }
    }

    /// Drains the queued outbound bytes of every writable session, to be
    /// written to the transport by the caller; each drained session then
    /// waits for the next write-readiness report. Must be invoked on every
    /// event-loop pass, because handler-generated traffic is not tied to
    /// any single read.
    pub fn run_pending_actions(&mut self) -> (actions: Vec<(u64, Vec<u8>)>)
        ensures
            final(self).our_id == old(self).our_id,
            final(self)@ == (ManagerV {
                sessions: old(self)@.sessions.map_values(|s: SessionV| flushed_session(s)),
                ..old(self)@
            }),
            actions@.map_values(|a: (u64, Vec<u8>)| (a.0, a.1@)) == flushed_actions(
                old(self)@.sessions,
            ),
    {
        let mut actions: Vec<(u64, Vec<u8>)> = Vec::new();
        let n = self.sessions.len();
        let mut k: usize = 0;
        proof {
            assert(old(self)@.sessions.take(0) =~= Seq::<SessionV>::empty());
            assert(actions@.map_values(|a: (u64, Vec<u8>)| (a.0, a.1@)) =~= flushed_actions(
                old(self)@.sessions.take(0),
            ));
        }
        while k < n
            invariant
                k <= n,
                n == self.sessions@.len(),
                self@.sessions.len() == n,
                self.our_id == old(self).our_id,
                self.gossip == old(self).gossip,
                old(self)@.sessions.len() == n,
                forall|j: int| k <= j < n ==> self@.sessions[j] == old(self)@.sessions[j],
                forall|j: int|
                    0 <= j < k ==> self@.sessions[j] == flushed_session(old(self)@.sessions[j]),
                actions@.map_values(|a: (u64, Vec<u8>)| (a.0, a.1@)) == flushed_actions(
                    old(self)@.sessions.take(k as int),
                ),
            decreases n - k,
        {
            let ghost preactions = actions@;
            if self.sessions[k].writable && self.sessions[k].outbound.len() > 0 {
                let d = self.sessions[k].descriptor;
                let out = copy_bytes(&self.sessions[k].outbound);
                let mut ns = copy_session(&self.sessions[k]);
                ns.outbound = Vec::new();
                ns.writable = false;
                let ghost presess = self@.sessions;
                self.sessions[k] = ns;
                actions.push((d, out));
                proof {
                    assert(ns@ =~= flushed_session(old(self)@.sessions[k as int]));
                    assert(self@.sessions =~= presess.update(
                        k as int,
                        flushed_session(old(self)@.sessions[k as int]),
                    ));
                    assert(actions@.map_values(|a: (u64, Vec<u8>)| (a.0, a.1@))
                        =~= preactions.map_values(|a: (u64, Vec<u8>)| (a.0, a.1@)).push(
                        (d, out@),
                    ));
                }
            } else {
                proof {
                    assert(self@.sessions[k as int] == flushed_session(
                        old(self)@.sessions[k as int],
                    ));
                }
            }
            proof {
                let t1 = old(self)@.sessions.take(k + 1);
                assert(t1.drop_last() =~= old(self)@.sessions.take(k as int));
                assert(t1.last() == old(self)@.sessions[k as int]);
                assert(actions@.map_values(|a: (u64, Vec<u8>)| (a.0, a.1@)) =~= flushed_actions(
                    t1,
                ));
            }
            k += 1;
        }
        proof {
            assert(old(self)@.sessions.take(n as int) =~= old(self)@.sessions);
            assert(self@.sessions =~= old(self)@.sessions.map_values(
                |s: SessionV| flushed_session(s),
            ));
            assert(self@ =~= (ManagerV {
                sessions: old(self)@.sessions.map_values(|s: SessionV| flushed_session(s)),
                ..old(self)@
            }));
        }
        actions
    }

    /// Periodic maintenance, driven on a fixed external cadence: sends a
    /// keepalive ping to every quiet established session, evicts sessions
    /// whose ping went unanswered past the timeout, and enforces the
    /// handshake timeout on inbound sessions.
    pub fn on_timer_tick(&mut self)
        ensures
            final(self).our_id == old(self).our_id,
            final(self)@ == (ManagerV {
                sessions: ticked_sessions(old(self)@.sessions),
                ..old(self)@
            }),
    {
        let mut next: Vec<PeerSession> = Vec::new();
        let n = self.sessions.len();
        let mut k: usize = 0;
        proof {
            assert(self@.sessions.take(0) =~= Seq::<SessionV>::empty());
            assert(next@.map_values(|s: PeerSession| s@) =~= ticked_sessions(
                self@.sessions.take(0),
            ));
        }
        while k < n
            invariant
                k <= n,
                n == self.sessions@.len(),
                self@.sessions.len() == n,
                next@.map_values(|s: PeerSession| s@) == ticked_sessions(
                    self@.sessions.take(k as int),
                ),
            decreases n - k,
        {
            let ghost prenext = next@;
            let evict = if self.sessions[k].identity.is_none() {
                self.sessions[k].ticks >= HANDSHAKE_TIMEOUT_TICKS - 1
            } else if self.sessions[k].awaiting_pong {
                self.sessions[k].ticks >= KEEPALIVE_TIMEOUT_TICKS - 1
            } else {
                false
            };
            if !evict {
                if self.sessions[k].identity.is_none() || self.sessions[k].awaiting_pong {
                    let mut ns = copy_session(&self.sessions[k]);
                    ns.ticks = ns.ticks + 1;
                    next.push(ns);
                    proof {
                        assert(ns@ =~= ticked_session(self@.sessions[k as int]).unwrap());
                        assert(next@.map_values(|s: PeerSession| s@) =~= prenext.map_values(
                            |s: PeerSession| s@,
                        ).push(ticked_session(self@.sessions[k as int]).unwrap()));
                    }
                } else {
                    let mut ping_bytes: Vec<u8> = Vec::new();
                    ping_bytes.push(MSG_PING);
                    proof {
                        assert(ping_bytes@ =~= ping_payload());
                    }
                    let ping = encode_frame(&ping_bytes);
                    let mut ns = copy_session(&self.sessions[k]);
                    append_bytes(&mut ns.outbound, &ping);
                    ns.awaiting_pong = true;
                    ns.ticks = 0;
                    next.push(ns);
                    proof {
                        assert(ns@ =~= ticked_session(self@.sessions[k as int]).unwrap());
                        assert(next@.map_values(|s: PeerSession| s@) =~= prenext.map_values(
                            |s: PeerSession| s@,
                        ).push(ticked_session(self@.sessions[k as int]).unwrap()));
                    }
                }
            } else {
                proof {
                    assert(ticked_session(self@.sessions[k as int]) is None);
                }
            }
            proof {
                let t1 = self@.sessions.take(k + 1);
                assert(t1.drop_last() =~= self@.sessions.take(k as int));
                assert(t1.last() == self@.sessions[k as int]);
                assert(next@.map_values(|s: PeerSession| s@) =~= ticked_sessions(t1));
            }
            k += 1;
        }
        let ghost pre = self@;
        self.sessions = next;
        proof {
            assert(pre.sessions.take(n as int) =~= pre.sessions);
            assert(self@ =~= (ManagerV { sessions: ticked_sessions(pre.sessions), ..pre }));
        }
    }

    /// Constructs this node's own announcement and queues it to every
    /// connected peer; used to keep the node discoverable. `addresses` is
    /// the encoded address list carried verbatim.
    pub fn broadcast_node_announcement(&mut self, rgb: Vec<u8>, alias: Vec<u8>, addresses: Vec<u8>)
        requires
            old(self).our_id.wf(),
            rgb@.len() == RGB_LEN,
            alias@.len() == ALIAS_LEN,
            addresses@.len() <= MAX_FRAME_PAYLOAD - 69,
        ensures
            final(self).our_id == old(self).our_id,
            final(self)@ == (ManagerV {
                sessions: old(self)@.sessions.map_values(
                    |s: SessionV|
                        broadcast_session(
                            s,
                            frame_spec(
                                node_announcement_payload(
                                    old(self)@.our_id,
                                    alias@,
                                    rgb@,
                                    addresses@,
                                ),
                            ),
                        ),
                ),
                ..old(self)@
            }),
    {
        let mut payload: Vec<u8> = Vec::new();
        payload.push(MSG_NODE_ANNOUNCEMENT);
        append_bytes(&mut payload, &self.our_id.bytes);
        append_bytes(&mut payload, &alias);
        append_bytes(&mut payload, &rgb);
        append_bytes(&mut payload, &addresses);
        proof {
            assert(payload@ =~= node_announcement_payload(self@.our_id, alias@, rgb@, addresses@));
        }
        let frame = encode_frame(&payload);
        let ghost framev = frame@;
        let n = self.sessions.len();
        let mut k: usize = 0;
        while k < n
            invariant
                k <= n,
                n == self.sessions@.len(),
                self@.sessions.len() == n,
                self.our_id == old(self).our_id,
                self.gossip == old(self).gossip,
                old(self)@.sessions.len() == n,
                frame@ == framev,
                framev == frame_spec(
                    node_announcement_payload(old(self)@.our_id, alias@, rgb@, addresses@),
                ),
                forall|j: int| k <= j < n ==> self@.sessions[j] == old(self)@.sessions[j],
                forall|j: int|
                    0 <= j < k ==> self@.sessions[j] == broadcast_session(
                        old(self)@.sessions[j],
                        framev,
                    ),
            decreases n - k,
        {
            if self.sessions[k].identity.is_some() {
                let mut ns = copy_session(&self.sessions[k]);
                append_bytes(&mut ns.outbound, &frame);
                let ghost presess = self@.sessions;
                self.sessions[k] = ns;
                proof {
                    assert(ns@ =~= broadcast_session(old(self)@.sessions[k as int], framev));
                    assert(self@.sessions =~= presess.update(
                        k as int,
                        broadcast_session(old(self)@.sessions[k as int], framev),
                    ));
                }
            } else {
                proof {
                    assert(self@.sessions[k as int] == broadcast_session(
                        old(self)@.sessions[k as int],
                        framev,
                    ));
                }
            }
            k += 1;
        }
        proof {
            assert(self@.sessions =~= old(self)@.sessions.map_values(
                |s: SessionV| broadcast_session(s, framev),
            ));
            assert(self@ =~= (ManagerV {
                sessions: old(self)@.sessions.map_values(
                    |s: SessionV| broadcast_session(s, framev),
                ),
                ..old(self)@
            }));
        }
    }
}

/// After a successful outbound registration the new identity is among the
/// listed connected identities.
pub proof fn lemma_outbound_connection_listed(sessions: Seq<SessionV>, s: SessionV, id: Seq<u8>)
    requires
        s.identity == Some(id),
    ensures
        connected_ids(sessions.push(s)).contains(id),
{
    let pushed = sessions.push(s);
    assert(pushed.drop_last() =~= sessions);
    assert(pushed.last() == s);
    let ids = connected_ids(pushed);
    assert(ids == connected_ids(sessions) + seq![id]);
    assert(ids[ids.len() - 1] == id);
}

/// Disconnecting an identity that has no live session changes nothing.
pub proof fn lemma_disconnect_not_connected(s: Seq<SessionV>, id: Seq<u8>)
    requires
        !id_connected(s, id),
    ensures
        remove_by_identity(s, id) == s,
    decreases s.len(),
{
    if s.len() > 0 {
        assert forall|i: int|
            0 <= i < s.drop_last().len() implies s.drop_last()[i].identity != Some(id) by {
            assert(s.drop_last()[i] == s[i]);
        }
        lemma_disconnect_not_connected(s.drop_last(), id);
        assert(s.last().identity != Some(id)) by {
            assert(s[s.len() - 1] == s.last());
        }
        assert(remove_by_identity(s, id) =~= s.drop_last().push(s.last()));
        assert(s.drop_last().push(s.last()) =~= s);
    }
}

/// No session bound to `d` survives its teardown.
pub proof fn lemma_remove_descriptor_complete(s: Seq<SessionV>, d: u64)
    ensures
        !has_descriptor(remove_by_descriptor(s, d), d),
    decreases s.len(),
{
    if s.len() > 0 {
        lemma_remove_descriptor_complete(s.drop_last(), d);
        let r = remove_by_descriptor(s, d);
        let r0 = remove_by_descriptor(s.drop_last(), d);
        assert forall|i: int| 0 <= i < r.len() implies r[i].descriptor != d by {
            if i < r0.len() {
                assert(r[i] == r0[i]);
            } else {
                assert(r[i] == s.last());
            }
        }
    }
}

/// Removing a descriptor nothing is bound to changes nothing.
pub proof fn lemma_remove_absent_descriptor(s: Seq<SessionV>, d: u64)
    requires
        !has_descriptor(s, d),
    ensures
        remove_by_descriptor(s, d) == s,
    decreases s.len(),
{
    if s.len() > 0 {
        assert forall|i: int|
            0 <= i < s.drop_last().len() implies s.drop_last()[i].descriptor != d by {
            assert(s.drop_last()[i] == s[i]);
        }
        lemma_remove_absent_descriptor(s.drop_last(), d);
        assert(s.last().descriptor != d) by {
            assert(s[s.len() - 1] == s.last());
        }
        assert(remove_by_descriptor(s, d) =~= s.drop_last().push(s.last()));
        assert(s.drop_last().push(s.last()) =~= s);
    }
}

/// Tearing down a socket is idempotent: closing the same descriptor again
/// changes nothing.
pub proof fn lemma_socket_close_idempotent(s: Seq<SessionV>, d: u64)
    ensures
        remove_by_descriptor(remove_by_descriptor(s, d), d) == remove_by_descriptor(s, d),
{
    lemma_remove_descriptor_complete(s, d);
    lemma_remove_absent_descriptor(remove_by_descriptor(s, d), d);
}

/// No session carrying `id` survives its disconnect.
pub proof fn lemma_remove_identity_complete(s: Seq<SessionV>, id: Seq<u8>)
    ensures
        !id_connected(remove_by_identity(s, id), id),
    decreases s.len(),
{
    if s.len() > 0 {
        lemma_remove_identity_complete(s.drop_last(), id);
        let r = remove_by_identity(s, id);
        let r0 = remove_by_identity(s.drop_last(), id);
        assert forall|i: int| 0 <= i < r.len() implies r[i].identity != Some(id) by {
            if i < r0.len() {
                assert(r[i] == r0[i]);
            } else {
                assert(r[i] == s.last());
            }
        }
    }
}

/// Disconnecting is idempotent: a second disconnect of the same identity
/// changes nothing.
pub proof fn lemma_disconnect_idempotent(s: Seq<SessionV>, id: Seq<u8>)
    ensures
        remove_by_identity(remove_by_identity(s, id), id) == remove_by_identity(s, id),
{
    lemma_remove_identity_complete(s, id);
    lemma_disconnect_not_connected(remove_by_identity(s, id), id);
}

/// A fresh session value equal to `s`.
fn copy_session(s: &PeerSession) -> (r: PeerSession)
    ensures
        r@ == s@,
{
    PeerSession {
        identity: match &s.identity {
            Some(id) => Some(PeerIdentity { bytes: copy_bytes(&id.bytes) }),
            None => None,
        },
        descriptor: s.descriptor,
        inbound: copy_bytes(&s.inbound),
        outbound: copy_bytes(&s.outbound),
        writable: s.writable,
        ticks: s.ticks,
        awaiting_pong: s.awaiting_pong,
    }
}

/// A fresh session value equal to `s` but for the writable flag.
fn copy_session_with_writable(s: &PeerSession, writable: bool) -> (r: PeerSession)
    ensures
        r@ == (SessionV { writable, ..s@ }),
{
    let mut r = copy_session(s);
    r.writable = writable;
    r
}

} // verus!
