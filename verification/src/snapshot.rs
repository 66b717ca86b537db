//! A point-in-time, read-only view of the storage engine.
//!
//! The engine keeps three independent, sorted key spaces: the write index
//! (versioned keys to encoded write records), the value store (versioned keys
//! to full payloads) and the lock region (user keys to the start timestamp of
//! an in-flight transaction, at most one lock per key). A snapshot is
//! immutable once handed to a reader; it is filled strictly in key order, the
//! order the engine itself maintains.

use vstd::prelude::*;
use crate::key::{Key, version_lt, lemma_version_lt_trans};
use crate::lex::{lex_lt, lemma_lex_lt_trans, bytes_lt, bytes_eq, copy_bytes};

verus! {

/// One entry of a versioned region: a user key, the timestamp of the version,
/// and the stored bytes.
pub struct Entry {
    /// The user-key part of the versioned key.
    pub key: Vec<u8>,
    /// The timestamp part of the versioned key.
    pub ts: u64,
    /// The stored bytes: an encoded write record in the write index, a raw
    /// payload in the value store.
    pub value: Vec<u8>,
}

/// The mathematical view of an `Entry`.
pub struct EntryV {
    /// The user-key part of the versioned key.
    pub key: Seq<u8>,
    /// The timestamp part of the versioned key.
    pub ts: u64,
    /// The stored bytes.
    pub value: Seq<u8>,
}

impl View for Entry {
    type V = EntryV;

    open spec fn view(&self) -> EntryV {
        EntryV { key: self.key@, ts: self.ts, value: self.value@ }
    }
}

/// The views of a region's entries, in region order.
pub open spec fn entries_view(s: Seq<Entry>) -> Seq<EntryV> {
    s.map_values(|e: Entry| e@)
}

/// A versioned region is sorted strictly by the versioned-key order: user
/// keys ascending, timestamps descending within one user key. All versions of
/// one user key are therefore contiguous, newest first.
pub open spec fn region_sorted(s: Seq<EntryV>) -> bool {
    forall|i: int, j: int|
        #![trigger s[i], s[j]]
        0 <= i < j < s.len() ==> version_lt(s[i].key, s[i].ts, s[j].key, s[j].ts)
}

/// A lock held by an in-flight transaction.
pub struct LockEntry {
    /// The locked user key.
    pub key: Vec<u8>,
    /// The start timestamp of the transaction holding the lock.
    pub ts: u64,
}

/// The mathematical view of a `LockEntry`.
pub struct LockEntryV {
    /// The locked user key.
    pub key: Seq<u8>,
    /// The start timestamp of the transaction holding the lock.
    pub ts: u64,
}

impl View for LockEntry {
    type V = LockEntryV;

    open spec fn view(&self) -> LockEntryV {
        LockEntryV { key: self.key@, ts: self.ts }
    }
}

/// The views of the lock region's entries, in region order.
pub open spec fn locks_view_of(s: Seq<LockEntry>) -> Seq<LockEntryV> {
    s.map_values(|e: LockEntry| e@)
}

/// The lock region is sorted strictly by user key, so each key holds at most
/// one lock.
pub open spec fn locks_sorted(s: Seq<LockEntryV>) -> bool {
    forall|i: int, j: int|
        #![trigger s[i], s[j]]
        0 <= i < j < s.len() ==> lex_lt(s[i].key, s[j].key)
}

/// The start timestamp of the lock on `key`, if one exists: the first entry
/// of the lock region whose key matches.
pub open spec fn lock_of(s: Seq<LockEntryV>, key: Seq<u8>) -> Option<u64>
    decreases s.len(),
{
    if s.len() == 0 {
        None
    } else if s[0].key == key {
        Some(s[0].ts)
    } else {
        lock_of(s.drop_first(), key)
    }
}

/// If `s[i]` is the first entry whose key matches, the lookup returns it.
pub proof fn lemma_lock_of_first_match(s: Seq<LockEntryV>, key: Seq<u8>, i: int)
    requires
        0 <= i < s.len(),
        s[i].key == key,
        forall|j: int| 0 <= j < i ==> s[j].key != key,
    ensures
        lock_of(s, key) == Some(s[i].ts),
    decreases i,
{
    if i > 0 {
        lemma_lock_of_first_match(s.drop_first(), key, i - 1);
    }
}

/// If no entry's key matches, the lookup fails.
pub proof fn lemma_lock_of_none(s: Seq<LockEntryV>, key: Seq<u8>)
    requires
        forall|j: int| 0 <= j < s.len() ==> s[j].key != key,
    ensures
        lock_of(s, key) is None,
    decreases s.len(),
{
    if s.len() > 0 {
        lemma_lock_of_none(s.drop_first(), key);
    }
}

/// The payload stored in the value store under `key + ts`, if any: the first
/// entry matching both the key and the timestamp.
pub open spec fn data_value_of(s: Seq<EntryV>, key: Seq<u8>, ts: u64) -> Option<Seq<u8>>
    decreases s.len(),
{
    if s.len() == 0 {
        None
    } else if s[0].key == key && s[0].ts == ts {
        Some(s[0].value)
    } else {
        data_value_of(s.drop_first(), key, ts)
    }
}

/// If `s[i]` is the first entry matching key and timestamp, the lookup
/// returns its payload.
pub proof fn lemma_data_value_of_first_match(s: Seq<EntryV>, key: Seq<u8>, ts: u64, i: int)
    requires
        0 <= i < s.len(),
        s[i].key == key,
        s[i].ts == ts,
        forall|j: int| 0 <= j < i ==> !(s[j].key == key && s[j].ts == ts),
    ensures
        data_value_of(s, key, ts) == Some(s[i].value),
    decreases i,
{
    if i > 0 {
        lemma_data_value_of_first_match(s.drop_first(), key, ts, i - 1);
    }
}

/// If no entry matches key and timestamp, the lookup fails.
pub proof fn lemma_data_value_of_none(s: Seq<EntryV>, key: Seq<u8>, ts: u64)
    requires
        forall|j: int| 0 <= j < s.len() ==> !(s[j].key == key && s[j].ts == ts),
    ensures
        data_value_of(s, key, ts) is None,
    decreases s.len(),
{
    if s.len() > 0 {
        lemma_data_value_of_none(s.drop_first(), key, ts);
    }
}

/// The identifier of a versioned storage region.
#[derive(Clone, Copy, Debug, PartialEq, Eq, Structural)]
pub enum Cf {
    /// The value store, holding full payloads.
    Default,
    /// The write index, holding commit records.
    Write,
}

/// The direction a cursor scans in. The point-lookup read path only ever
/// scans forward (toward older versions).
#[derive(Clone, Copy, Debug)]
pub enum ScanMode {
    /// Ascending key order: within one user key, newest version first.
    Forward,
}

/// Engine-level cursor construction options. These tune the engine (cache
/// population, prefix bloom filters); they have no effect on what a correct
/// cursor returns.
#[derive(Clone, Copy, Debug)]
pub struct IterOptions {
    /// Whether reads through the cursor should populate the engine cache.
    pub fill_cache: bool,
    /// Whether the cursor may assume all seeks share one key prefix.
    pub prefix_seek: bool,
}

/// Copy a region's entries, preserving their views.
pub fn copy_entries(src: &Vec<Entry>) -> (r: Vec<Entry>)
    ensures
        entries_view(r@) == entries_view(src@),
{
    let mut r: Vec<Entry> = Vec::new();
    let mut i: usize = 0;
    while i < src.len()
        invariant
            0 <= i <= src@.len(),
            r@.len() == i,
            forall|j: int| 0 <= j < i ==> (#[trigger] r@[j])@ == src@[j]@,
        decreases src@.len() - i,
    {
        let e = Entry {
            key: copy_bytes(&src[i].key),
            ts: src[i].ts,
            value: copy_bytes(&src[i].value),
        };
        proof {
            assert(e@ == src@[i as int]@);
        }
        r.push(e);
        i = i + 1;
    }
    proof {
        assert(entries_view(r@) =~= entries_view(src@));
    }
    r
}

/// A point-in-time, read-only view of the three storage regions.
pub struct Snapshot {
    writes: Vec<Entry>,
    defaults: Vec<Entry>,
    locks: Vec<LockEntry>,
}

impl Snapshot {
    /// The write-index region.
    pub closed spec fn writes_view(self) -> Seq<EntryV> {
        entries_view(self.writes@)
    }

    /// The value-store region.
    pub closed spec fn defaults_view(self) -> Seq<EntryV> {
        entries_view(self.defaults@)
    }

    /// The lock region.
    pub closed spec fn locks_view(self) -> Seq<LockEntryV> {
        locks_view_of(self.locks@)
    }

    /// The ordering guarantees the engine gives for every snapshot.
    pub open spec fn wf(self) -> bool {
        region_sorted(self.writes_view()) && region_sorted(self.defaults_view()) && locks_sorted(
            self.locks_view(),
        )
    }

    /// An empty snapshot.
    pub fn new() -> (s: Snapshot)
        ensures
            s.wf(),
            s.writes_view() == Seq::<EntryV>::empty(),
            s.defaults_view() == Seq::<EntryV>::empty(),
            s.locks_view() == Seq::<LockEntryV>::empty(),
    {
        let s = Snapshot { writes: Vec::new(), defaults: Vec::new(), locks: Vec::new() };
        proof {
            assert(s.writes_view() =~= Seq::<EntryV>::empty());
            assert(s.defaults_view() =~= Seq::<EntryV>::empty());
            assert(s.locks_view() =~= Seq::<LockEntryV>::empty());
        }
        s
    }

    /// Append one write-index entry. The entry is accepted only if it keeps
    /// the region order (it must sort after the current last entry); the
    /// result says whether it was accepted.
    pub fn put_write(&mut self, key: Vec<u8>, commit_ts: u64, record: Vec<u8>) -> (ok: bool)
        requires
            old(self).wf(),
        ensures
            final(self).wf(),
            final(self).defaults_view() == old(self).defaults_view(),
            final(self).locks_view() == old(self).locks_view(),
            ok == (old(self).writes_view().len() == 0 || version_lt(
                old(self).writes_view().last().key,
                old(self).writes_view().last().ts,
                key@,
                commit_ts,
            )),
            ok ==> final(self).writes_view() == old(self).writes_view().push(
                EntryV { key: key@, ts: commit_ts, value: record@ },
            ),
            !ok ==> final(self).writes_view() == old(self).writes_view(),
    {
        let n = self.writes.len();
        let ordered = if n == 0 {
            true
        } else {
            let last = &self.writes[n - 1];
            bytes_lt(&last.key, &key) || (bytes_eq(&last.key, &key) && last.ts > commit_ts)
        };
        if !ordered {
            return false;
        }
        let ghost old_view = self.writes_view();
        let ghost newv = EntryV { key: key@, ts: commit_ts, value: record@ };
        self.writes.push(Entry { key, ts: commit_ts, value: record });
        proof {
            assert(self.writes_view() =~= old_view.push(newv));
            lemma_region_push_sorted(old_view, newv);
        }
        true
    }

    /// Append one value-store entry, under the same ordering rule as
    /// `put_write`.
    pub fn put_default(&mut self, key: Vec<u8>, start_ts: u64, value: Vec<u8>) -> (ok: bool)
        requires
            old(self).wf(),
        ensures
            final(self).wf(),
            final(self).writes_view() == old(self).writes_view(),
            final(self).locks_view() == old(self).locks_view(),
            ok == (old(self).defaults_view().len() == 0 || version_lt(
                old(self).defaults_view().last().key,
                old(self).defaults_view().last().ts,
                key@,
                start_ts,
            )),
            ok ==> final(self).defaults_view() == old(self).defaults_view().push(
                EntryV { key: key@, ts: start_ts, value: value@ },
            ),
            !ok ==> final(self).defaults_view() == old(self).defaults_view(),
    {
        let n = self.defaults.len();
        let ordered = if n == 0 {
            true
        } else {
            let last = &self.defaults[n - 1];
            bytes_lt(&last.key, &key) || (bytes_eq(&last.key, &key) && last.ts > start_ts)
        };
        if !ordered {
            return false;
        }
        let ghost old_view = self.defaults_view();
        let ghost newv = EntryV { key: key@, ts: start_ts, value: value@ };
        self.defaults.push(Entry { key, ts: start_ts, value });
        proof {
            assert(self.defaults_view() =~= old_view.push(newv));
            lemma_region_push_sorted(old_view, newv);
        }
        true
    }

    /// Append one lock. The lock is accepted only if its key sorts strictly
    /// after the current last locked key.
    pub fn put_lock(&mut self, key: Vec<u8>, start_ts: u64) -> (ok: bool)
        requires
            old(self).wf(),
        ensures
            final(self).wf(),
            final(self).writes_view() == old(self).writes_view(),
            final(self).defaults_view() == old(self).defaults_view(),
            ok == (old(self).locks_view().len() == 0 || lex_lt(
                old(self).locks_view().last().key,
                key@,
            )),
            ok ==> final(self).locks_view() == old(self).locks_view().push(
                LockEntryV { key: key@, ts: start_ts },
            ),
            !ok ==> final(self).locks_view() == old(self).locks_view(),
    {
        let n = self.locks.len();
        let ordered = if n == 0 {
            true
        } else {
            bytes_lt(&self.locks[n - 1].key, &key)
        };
        if !ordered {
            return false;
        }
        let ghost old_view = self.locks_view();
        let ghost newv = LockEntryV { key: key@, ts: start_ts };
        self.locks.push(LockEntry { key, ts: start_ts });
        proof {
            assert(self.locks_view() =~= old_view.push(newv));
            lemma_locks_push_sorted(old_view, newv);
        }
        true
    }

    /// The start timestamp of the lock on `key`, if one exists.
    pub fn lock_ts_of(&self, key: &Key) -> (r: Option<u64>)
        ensures
            r == lock_of(self.locks_view(), key@),
    {
        let kb = key.as_bytes();
        let mut i: usize = 0;
        while i < self.locks.len()
            invariant
                0 <= i <= self.locks@.len(),
                kb@ == key@,
                forall|j: int| 0 <= j < i ==> #[trigger] self.locks_view()[j].key != key@,
            decreases self.locks@.len() - i,
        {
            if bytes_eq(&self.locks[i].key, kb) {
                proof {
                    lemma_lock_of_first_match(self.locks_view(), key@, i as int);
                }
                return Some(self.locks[i].ts);
            }
            i = i + 1;
        }
        proof {
            lemma_lock_of_none(self.locks_view(), key@);
        }
        None
    }

    /// Open a cursor over one region. The cursor captures the region's
    /// entries at this point in time.
    pub fn iter_cf(&self, cf: Cf, opts: IterOptions, mode: ScanMode) -> (c: crate::cursor::Cursor)
        ensures
            c.entries() == match cf {
                Cf::Write => self.writes_view(),
                Cf::Default => self.defaults_view(),
            },
            c.pos() == 0,
    {
        let entries = match cf {
            Cf::Write => copy_entries(&self.writes),
            Cf::Default => copy_entries(&self.defaults),
        };
        // Only forward scans exist; the parameter fixes the direction in the
        // signature the engine offers.
        match mode {
            ScanMode::Forward => {},
        }
        crate::cursor::Cursor::new(entries, opts)
    }
}

/// Appending an entry that sorts after a sorted region's last entry keeps the
/// region sorted.
proof fn lemma_region_push_sorted(s: Seq<EntryV>, e: EntryV)
    requires
        region_sorted(s),
        s.len() == 0 || version_lt(s.last().key, s.last().ts, e.key, e.ts),
    ensures
        region_sorted(s.push(e)),
{
    let t = s.push(e);
    assert forall|i: int, j: int| 0 <= i < j < t.len() implies version_lt(
        #[trigger] t[i].key,
        t[i].ts,
        #[trigger] t[j].key,
        t[j].ts,
    ) by {
        if j < s.len() {
            assert(version_lt(s[i].key, s[i].ts, s[j].key, s[j].ts));
        } else {
            assert(t[j] == e);
            if i == s.len() - 1 {
                assert(t[i] == s.last());
            } else {
                assert(version_lt(s[i].key, s[i].ts, s.last().key, s.last().ts));
                lemma_version_lt_trans(s[i].key, s[i].ts, s.last().key, s.last().ts, e.key, e.ts);
            }
        }
    }
}

/// Appending a lock whose key sorts after a sorted lock region's last key
/// keeps the region sorted.
proof fn lemma_locks_push_sorted(s: Seq<LockEntryV>, e: LockEntryV)
    requires
        locks_sorted(s),
        s.len() == 0 || lex_lt(s.last().key, e.key),
    ensures
        locks_sorted(s.push(e)),
{
    let t = s.push(e);
    assert forall|i: int, j: int| 0 <= i < j < t.len() implies lex_lt(
        (#[trigger] t[i]).key,
        (#[trigger] t[j]).key,
    ) by {
        if j < s.len() {
            assert(lex_lt(s[i].key, s[j].key));
        } else {
            assert(t[j] == e);
            if i == s.len() - 1 {
                assert(t[i] == s.last());
            } else {
                assert(lex_lt(s[i].key, s.last().key));
                lemma_lex_lt_trans(s[i].key, s.last().key, e.key);
            }
        }
    }
}

} // verus!
