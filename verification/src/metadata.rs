//! Last-seen alias/color persistence per known peer, keyed by peer identity.
//!
//! The store is a key-value capability at the persistence boundary: reads
//! return absence rather than erroring, writes may fail. A store can be set
//! read-only, after which every write fails with [`StoreError::ReadOnly`];
//! the gossip relay swallows such failures so a failing store never
//! destabilizes protocol-message handling.

use vstd::prelude::*;
use crate::bytes::copy_bytes;
use crate::errors::StoreError;
use crate::identity::{PeerIdentity, same_identity};
use crate::messages::{ALIAS_LEN, RGB_LEN};

verus! {

/// View of one stored metadata record.
#[verifier::ext_equal]
pub struct MetadataRecordV {
    pub node_id: Seq<u8>,
    pub alias: Seq<u8>,
    pub rgb: Seq<u8>,
}

/// Alias and color last seen for one peer the node has a relationship with.
#[derive(Clone, Debug)]
pub struct MetadataRecord {
    pub node_id: PeerIdentity,
    pub alias: Vec<u8>,
    pub rgb: Vec<u8>,
}

impl View for MetadataRecord {
    type V = MetadataRecordV;

    open spec fn view(&self) -> MetadataRecordV {
        MetadataRecordV { node_id: self.node_id@, alias: self.alias@, rgb: self.rgb@ }
    }
}

impl MetadataRecord {
    pub open spec fn wf(self) -> bool {
        self.node_id.wf() && self.alias@.len() == ALIAS_LEN && self.rgb@.len() == RGB_LEN
    }
}

/// Whether some record in `s` is keyed by `id`.
pub open spec fn has_record(s: Seq<MetadataRecordV>, id: Seq<u8>) -> bool {
    exists|i: int| 0 <= i < s.len() && s[i].node_id == id
}

/// Index of the first record in `s` keyed by `id`, or `-1`.
pub open spec fn record_index(s: Seq<MetadataRecordV>, id: Seq<u8>) -> int
    decreases s.len(),
{
    if s.len() == 0 {
        -1
    } else if s[0].node_id == id {
        0
    } else {
        let r = record_index(s.skip(1), id);
        if r < 0 {
            -1
        } else {
            r + 1
        }
    }
}

/// `record_index` finds the first record keyed by `id` exactly when
/// `has_record` holds.
pub proof fn lemma_record_index(s: Seq<MetadataRecordV>, id: Seq<u8>)
    ensures
        has_record(s, id) <==> 0 <= record_index(s, id) < s.len(),
        record_index(s, id) >= 0 ==> s[record_index(s, id)].node_id == id,
        forall|j: int| 0 <= j < record_index(s, id) ==> s[j].node_id != id,
        !has_record(s, id) ==> record_index(s, id) == -1,
    decreases s.len(),
{
    if s.len() > 0 && s[0].node_id != id {
        lemma_record_index(s.skip(1), id);
        assert forall|i: int| 0 <= i < s.len() && s[i].node_id == id implies has_record(
            s.skip(1),
            id,
        ) by {
            assert(s.skip(1)[i - 1] == s[i]);
        }
        assert forall|j: int| 0 <= j < record_index(s, id) implies s[j].node_id != id by {
            if j > 0 {
                assert(s.skip(1)[j - 1] == s[j]);
            }
        }
    }
}

/// If `s[i]` is the first record keyed by `id`, then `record_index` is `i`.
pub proof fn lemma_record_index_at(s: Seq<MetadataRecordV>, id: Seq<u8>, i: int)
    requires
        0 <= i < s.len(),
        s[i].node_id == id,
        forall|j: int| 0 <= j < i ==> s[j].node_id != id,
    ensures
        record_index(s, id) == i,
    decreases s.len(),
{
    if i > 0 {
        assert forall|j: int| 0 <= j < i - 1 implies s.skip(1)[j].node_id != id by {
            assert(s.skip(1)[j] == s[j + 1]);
        }
        assert(s.skip(1)[i - 1] == s[i]);
        lemma_record_index_at(s.skip(1), id, i - 1);
    }
}

/// The key-value metadata store.
#[derive(Clone, Debug)]
pub struct MetadataStore {
    pub records: Vec<MetadataRecord>,
    pub accepting_writes: bool,
}

impl View for MetadataStore {
    type V = Seq<MetadataRecordV>;

    open spec fn view(&self) -> Seq<MetadataRecordV> {
        self.records@.map_values(|r: MetadataRecord| r@)
    }
}

impl MetadataStore {
    /// An empty store that accepts writes.
    pub fn new() -> (r: MetadataStore)
        ensures
            r@.len() == 0,
            r.accepting_writes,
    {
        MetadataStore { records: Vec::new(), accepting_writes: true }
    }

    /// Switches the store between accepting and refusing writes.
    pub fn set_accepting_writes(&mut self, accepting: bool)
        ensures
            final(self)@ == old(self)@,
            final(self).accepting_writes == accepting,
    {
        self.accepting_writes = accepting;
    }

    /// Number of records currently stored.
    pub fn record_count(&self) -> (r: usize)
        ensures
            r == self@.len(),
    {
        self.records.len()
    }

    /// Looks up the record keyed by `id`; absence is not an error.
    pub fn read(&self, id: &PeerIdentity) -> (r: Option<MetadataRecord>)
        ensures
            match r {
                Some(rec) => has_record(self@, id@) && rec@ == self@[record_index(self@, id@)],
                None => !has_record(self@, id@),
            },
    {
        proof {
            lemma_record_index(self@, id@);
        }
        let n = self.records.len();
        let mut i: usize = 0;
        while i < n
            invariant
                n == self.records@.len(),
                i <= n,
                self@.len() == n,
                forall|j: int| 0 <= j < i ==> self@[j].node_id != id@,
            decreases n - i,
        {
            if same_identity(&self.records[i].node_id, id) {
                proof {
                    lemma_record_index_at(self@, id@, i as int);
                }
                let rec = MetadataRecord {
                    node_id: PeerIdentity { bytes: copy_bytes(&self.records[i].node_id.bytes) },
                    alias: copy_bytes(&self.records[i].alias),
                    rgb: copy_bytes(&self.records[i].rgb),
                };
                return Some(rec);
            }
            i += 1;
        }
        proof {
            assert(!has_record(self@, id@));
        }
        None
    }

    /// Writes `rec` under its own key: overwrites the first record with that
    /// key, or appends a new one. Fails, leaving the store unchanged, when
    /// the store refuses writes.
    pub fn write(&mut self, rec: MetadataRecord) -> (r: Result<(), StoreError>)
        ensures
            final(self).accepting_writes == old(self).accepting_writes,
            match r {
                Ok(()) => old(self).accepting_writes && if has_record(old(self)@, rec.node_id@) {
                    final(self)@ == old(self)@.update(
                        record_index(old(self)@, rec.node_id@),
                        rec@,
                    )
                } else {
                    final(self)@ == old(self)@.push(rec@)
                },
                Err(e) => e == StoreError::ReadOnly && !old(self).accepting_writes
                    && final(self)@ == old(self)@,
            },
    {
        if !self.accepting_writes {
            return Err(StoreError::ReadOnly);
        }
        proof {
            lemma_record_index(self@, rec.node_id@);
        }
        let n = self.records.len();
        let mut i: usize = 0;
        while i < n
            invariant
                *self == *old(self),
                old(self).accepting_writes,
                n == self.records@.len(),
                i <= n,
                self@.len() == n,
                forall|j: int| 0 <= j < i ==> self@[j].node_id != rec.node_id@,
            decreases n - i,
        {
            if same_identity(&self.records[i].node_id, &rec.node_id) {
                proof {
                    lemma_record_index_at(self@, rec.node_id@, i as int);
                    assert(has_record(self@, rec.node_id@)) by {
                        assert(self@[i as int].node_id == rec.node_id@);
                    }
                }
                let ghost pre = self@;
                self.records[i] = rec;
                proof {
                    assert(self@ =~= pre.update(i as int, rec@));
                }
                return Ok(());
            }
            i += 1;
        }
        proof {
            assert(!has_record(self@, rec.node_id@));
        }
        let ghost pre = self@;
        self.records.push(rec);
        proof {
            assert(self@ =~= pre.push(rec@));
        }
        Ok(())
    }
}

} // verus!
