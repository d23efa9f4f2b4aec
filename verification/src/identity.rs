//! Peer identities: fixed-size public-key values naming a counterparty.
//!
//! An identity is the primary key for session lookup, metadata storage and
//! disconnect targeting. The byte container itself only fixes the length;
//! whether the bytes form a point on the curve is decided by the secp256k1
//! parser behind [`is_valid_peer_key`].

use vstd::prelude::*;
use crate::PEER_ID_LEN;

verus! {

/// Whether `b` parses as a secp256k1 public key.
///
/// The parse outcome is a function of the bytes alone, so it gets a name
/// rather than a page of curve arithmetic.
pub uninterp spec fn is_valid_peer_key(b: Seq<u8>) -> bool;

/// Relies on `bitcoin::secp256k1::PublicKey::from_slice`: accepts or rejects
/// a byte string depending on the bytes alone; an empty slice is always
/// rejected.
#[verifier::external_body]
pub fn validate_peer_key(b: &[u8]) -> (r: bool)
    ensures
        r == is_valid_peer_key(b@),
        b@.len() == 0 ==> r == false,
{
    bitcoin::secp256k1::PublicKey::from_slice(b).is_ok()
}

/// A fixed-size public-key value identifying one counterparty node.
#[derive(Clone, Debug)]
pub struct PeerIdentity {
    pub bytes: Vec<u8>,
}

impl View for PeerIdentity {
    type V = Seq<u8>;

    open spec fn view(&self) -> Seq<u8> {
        self.bytes@
    }
}

impl PeerIdentity {
    /// A well-formed identity holds exactly one compressed public key.
    pub open spec fn wf(self) -> bool {
        self@.len() == PEER_ID_LEN
    }

    /// Builds an identity from raw bytes; rejects any length other than the
    /// compressed public-key length.
    pub fn from_bytes(bytes: Vec<u8>) -> (r: Option<PeerIdentity>)
        ensures
            match r {
                Some(id) => id@ == bytes@ && id.wf(),
                None => bytes@.len() != PEER_ID_LEN,
            },
    {
        if bytes.len() == PEER_ID_LEN {
            Some(PeerIdentity { bytes })
        } else {
            None
        }
    }
}

/// Byte-wise equality of two byte vectors.
pub fn bytes_equal(a: &Vec<u8>, b: &Vec<u8>) -> (r: bool)
    ensures
        r == (a@ == b@),
{
    if a.len() != b.len() {
        assert(a@ != b@);
        return false;
    }
    let n = a.len();
    let mut i: usize = 0;
    while i < n
        invariant
            n == a@.len() && n == b@.len(),
            i <= n,
            forall|j: int| 0 <= j < i ==> a@[j] == b@[j],
        decreases n - i,
    {
        if a[i] != b[i] {
            return false;
        }
        i += 1;
    }
    proof {
        assert(a@ =~= b@);
    }
    true
}

/// Byte-wise equality of two identities.
pub fn same_identity(a: &PeerIdentity, b: &PeerIdentity) -> (r: bool)
    ensures
        r == (a@ == b@),
{
    bytes_equal(&a.bytes, &b.bytes)
}

} // verus!
