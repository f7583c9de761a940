//! Replica merge: last-write-wins over per-record timestamps and versions,
//! with tombstones that propagate deletions.

use std::cmp::Ordering;
use vstd::prelude::*;
use vstd::utf8::encode_utf8;

verus! {

/// A record as it travels in a sync payload, still encrypted under the
/// vault key.
pub struct SyncEntry {
    /// Stable identifier of the record.
    pub entry_uuid: String,
    /// Display label (site name).
    pub uuid: String,
    pub data_blob: Vec<u8>,
    pub nonce: Vec<u8>,
    pub profile_name: String,
    pub sync_version: i64,
    /// ISO-8601 timestamps.
    pub created_at: String,
    pub updated_at: String,
    pub deleted_at: Option<String>,
}

/// A sync message: format version, the encryption salt on a first sync,
/// and the records.
pub struct SyncPayload {
    pub version: u32,
    pub encryption_salt: Option<String>,
    pub entries: Vec<SyncEntry>,
}

/// What the merge needs of the local copy of a record.
pub struct LocalRecordMeta {
    pub updated_at: String,
    pub sync_version: i64,
    pub deleted: bool,
}

/// What to do with one incoming record.
#[derive(Debug, Clone, Copy, PartialEq, Eq, Structural)]
pub enum MergeAction {
    /// Unknown locally: insert it.
    Insert,
    /// The incoming record wins and is a tombstone for an active local
    /// record: mark the local record deleted (soft delete).
    SoftDelete,
    /// The incoming record wins: overwrite the local record with it.
    Update,
    /// The local record wins: keep it.
    Skip,
}

/// Tally of a merge.
#[derive(Debug, Clone, Copy, PartialEq, Eq, Structural)]
pub struct MergeResult {
    pub inserted: u32,
    pub updated: u32,
    pub deleted: u32,
    pub skipped: u32,
    pub conflicts: u32,
}

/// Byte-wise lexicographic order, the order of `str`.
pub open spec fn lex_cmp(a: Seq<u8>, b: Seq<u8>) -> Ordering
    decreases a.len(),
{
    if a.len() == 0 {
        if b.len() == 0 {
            Ordering::Equal
        } else {
            Ordering::Less
        }
    } else if b.len() == 0 {
        Ordering::Greater
    } else if a[0] < b[0] {
        Ordering::Less
    } else if a[0] > b[0] {
        Ordering::Greater
    } else {
        lex_cmp(a.drop_first(), b.drop_first())
    }
}

proof fn lemma_lex_cmp_skip(a: Seq<u8>, b: Seq<u8>, i: int)
    requires
        0 <= i < a.len(),
        i < b.len(),
        a[i] == b[i],
    ensures
        lex_cmp(a.skip(i), b.skip(i)) == lex_cmp(a.skip(i + 1), b.skip(i + 1)),
{
    assert(a.skip(i).drop_first() == a.skip(i + 1));
    assert(b.skip(i).drop_first() == b.skip(i + 1));
}

/// Compare two ISO-8601 timestamps; for timestamps in one format the
/// lexicographic order is the chronological one.
pub fn compare_timestamps(a: &str, b: &str) -> (r: Ordering)
    ensures
        r == lex_cmp(encode_utf8(a@), encode_utf8(b@)),
{
    let x = a.as_bytes();
    let y = b.as_bytes();
    let mut i: usize = 0;
    assert(x@.skip(0) == x@);
    assert(y@.skip(0) == y@);
    while i < x.len() && i < y.len()
        invariant
            x@ == encode_utf8(a@),
            y@ == encode_utf8(b@),
            i <= x@.len(),
            i <= y@.len(),
            lex_cmp(x@, y@) == lex_cmp(x@.skip(i as int), y@.skip(i as int)),
        decreases x@.len() - i,
    {
        if x[i] < y[i] {
            return Ordering::Less;
        }
        if x[i] > y[i] {
            return Ordering::Greater;
        }
        proof {
            lemma_lex_cmp_skip(x@, y@, i as int);
        }
        i = i + 1;
    }
    if x.len() == y.len() {
        Ordering::Equal
    } else if i == x.len() {
        Ordering::Less
    } else {
        Ordering::Greater
    }
}

/// The incoming record replaces the local one: a later timestamp, or the
/// same timestamp and a higher version. On a full tie the local one stays.
pub open spec fn incoming_wins(local: &LocalRecordMeta, incoming: &SyncEntry) -> bool {
    let ord = lex_cmp(encode_utf8(incoming.updated_at@), encode_utf8(local.updated_at@));
    ord == Ordering::Greater || (ord == Ordering::Equal && incoming.sync_version
        > local.sync_version)
}

/// The action for an incoming record, given its local copy if any.
pub open spec fn merge_action(local: Option<&LocalRecordMeta>, incoming: &SyncEntry) -> MergeAction {
    match local {
        None => MergeAction::Insert,
        Some(l) => if !incoming_wins(l, incoming) {
            MergeAction::Skip
        } else if incoming.deleted_at is Some && !l.deleted {
            MergeAction::SoftDelete
        } else {
            MergeAction::Update
        },
    }
}

/// Decide what to do with an incoming record.
pub fn decide_merge(local: Option<&LocalRecordMeta>, incoming: &SyncEntry) -> (r: MergeAction)
    ensures
        r == merge_action(local, incoming),
{
    match local {
        None => MergeAction::Insert,
        Some(l) => {
            let wins = match compare_timestamps(incoming.updated_at.as_str(), l.updated_at.as_str()) {
                Ordering::Greater => true,
                Ordering::Less => false,
                Ordering::Equal => incoming.sync_version > l.sync_version,
            };
            if !wins {
                MergeAction::Skip
            } else if incoming.deleted_at.is_some() && !l.deleted {
                MergeAction::SoftDelete
            } else {
                MergeAction::Update
            }
        },
    }
}

/// One more, stopping at the largest `u32`.
pub open spec fn bump(n: u32) -> u32 {
    if n == u32::MAX {
        n
    } else {
        (n + 1) as u32
    }
}

fn bump_exec(n: u32) -> (r: u32)
    ensures
        r == bump(n),
{
    if n == u32::MAX {
        n
    } else {
        n + 1
    }
}

/// The tally after one more action. A replacement, by update or by soft
/// delete, is also a conflict; a skip is not.
pub open spec fn tallied(t: MergeResult, action: MergeAction) -> MergeResult {
    match action {
        MergeAction::Insert => MergeResult { inserted: bump(t.inserted), ..t },
        MergeAction::Update => MergeResult {
            updated: bump(t.updated),
            conflicts: bump(t.conflicts),
            ..t
        },
        MergeAction::SoftDelete => MergeResult {
            deleted: bump(t.deleted),
            conflicts: bump(t.conflicts),
            ..t
        },
        MergeAction::Skip => MergeResult { skipped: bump(t.skipped), ..t },
    }
}

impl MergeResult {
    /// All counts zero.
    pub fn new() -> (r: Self)
        ensures
            r == (MergeResult { inserted: 0, updated: 0, deleted: 0, skipped: 0, conflicts: 0 }),
    {
        MergeResult { inserted: 0, updated: 0, deleted: 0, skipped: 0, conflicts: 0 }
    }

    /// Count one applied action.
    pub fn record(&mut self, action: MergeAction)
        ensures
            *final(self) == tallied(*old(self), action),
    {
        match action {
            MergeAction::Insert => {
                self.inserted = bump_exec(self.inserted);
            },
            MergeAction::Update => {
                self.updated = bump_exec(self.updated);
                self.conflicts = bump_exec(self.conflicts);
            },
            MergeAction::SoftDelete => {
                self.deleted = bump_exec(self.deleted);
                self.conflicts = bump_exec(self.conflicts);
            },
            MergeAction::Skip => {
                self.skipped = bump_exec(self.skipped);
            },
        }
    }
}

impl Default for MergeResult {
    fn default() -> (r: Self)
        ensures
            r == (MergeResult { inserted: 0, updated: 0, deleted: 0, skipped: 0, conflicts: 0 }),
    {
        MergeResult::new()
    }
}

/// Last write wins: against a local copy, the incoming record is applied
/// (as an update or a soft delete) exactly when its timestamp is later, or
/// equal with a higher version; otherwise the local copy is kept, and that
/// counts as skipped, not as a conflict.
pub proof fn lemma_last_write_wins(local: &LocalRecordMeta, incoming: &SyncEntry, t: MergeResult)
    ensures
        merge_action(Some(local), incoming) != MergeAction::Skip <==> {
            ||| lex_cmp(encode_utf8(incoming.updated_at@), encode_utf8(local.updated_at@))
                == Ordering::Greater
            ||| lex_cmp(encode_utf8(incoming.updated_at@), encode_utf8(local.updated_at@))
                == Ordering::Equal && incoming.sync_version > local.sync_version
        },
        merge_action(Some(local), incoming) == MergeAction::Skip ==> {
            let u = tallied(t, MergeAction::Skip);
            &&& u.skipped == bump(t.skipped)
            &&& u.conflicts == t.conflicts
            &&& u.inserted == t.inserted && u.updated == t.updated && u.deleted == t.deleted
        },
{
}

/// Tombstone propagation: an incoming deleted record that is later than an
/// active local record soft-deletes it (the record is kept, marked
/// deleted), and counts both as a deletion and as a conflict.
pub proof fn lemma_tombstone_propagates(local: &LocalRecordMeta, incoming: &SyncEntry, t: MergeResult)
    requires
        incoming.deleted_at is Some,
        !local.deleted,
        lex_cmp(encode_utf8(incoming.updated_at@), encode_utf8(local.updated_at@))
            == Ordering::Greater,
    ensures
        merge_action(Some(local), incoming) == MergeAction::SoftDelete,
        tallied(t, MergeAction::SoftDelete).deleted == bump(t.deleted),
        tallied(t, MergeAction::SoftDelete).conflicts == bump(t.conflicts),
{
}

} // verus!
