//! A forward cursor over one sorted storage region.
//!
//! The cursor captures the region's entries when it is opened and keeps one
//! position into them. Its seek is a "near seek": when the target lies at or
//! ahead of the current position it only steps forward, which is cheap for
//! monotonic key access; when the position has overshot, it falls back to a
//! full repositioning seek from the start. Either way it lands on the first
//! entry at or after the target in versioned-key order.

use vstd::prelude::*;
use crate::key::{VersionedKey, version_lt, lemma_version_lt_trans};
use crate::lex::{bytes_lt, bytes_eq, copy_bytes};
use crate::snapshot::{Entry, EntryV, IterOptions, entries_view, region_sorted};
use crate::statistics::CfStatistics;

verus! {

/// Whether the entry sorts strictly before the target versioned key.
fn entry_before(e: &Entry, target: &VersionedKey) -> (r: bool)
    ensures
        r == version_lt(e@.key, e@.ts, target.user_key@, target.ts),
{
    bytes_lt(&e.key, &target.user_key) || (bytes_eq(&e.key, &target.user_key) && e.ts
        > target.ts)
}

/// A forward cursor over one sorted storage region.
pub struct Cursor {
    entries: Vec<Entry>,
    pos: usize,
    /// Engine-level construction options; they tune the engine and have no
    /// effect on what the cursor returns.
    pub opts: IterOptions,
}

impl Cursor {
    /// The entries the cursor ranges over.
    pub closed spec fn entries(self) -> Seq<EntryV> {
        entries_view(self.entries@)
    }

    /// The current position; `entries().len()` means exhausted.
    pub closed spec fn pos(self) -> int {
        self.pos as int
    }

    /// The position never runs past the end of the region.
    pub open spec fn wf(self) -> bool {
        0 <= self.pos() <= self.entries().len()
    }

    /// Open a cursor positioned at the start of the given entries.
    pub fn new(entries: Vec<Entry>, opts: IterOptions) -> (c: Cursor)
        ensures
            c.entries() == entries_view(entries@),
            c.pos() == 0,
            c.wf(),
    {
        Cursor { entries, pos: 0, opts }
    }

    /// Whether the cursor currently points at an entry.
    pub fn valid(&self) -> (r: bool)
        ensures
            r == (self.pos() < self.entries().len()),
    {
        self.pos < self.entries.len()
    }

    /// Position the cursor at the first entry at or after `target` in
    /// versioned-key order. The result says whether such an entry exists.
    pub fn near_seek(&mut self, target: &VersionedKey, stats: &mut CfStatistics) -> (found: bool)
        requires
            old(self).wf(),
            region_sorted(old(self).entries()),
        ensures
            final(self).wf(),
            final(self).entries() == old(self).entries(),
            forall|j: int|
                0 <= j < final(self).pos() ==> version_lt(
                    (#[trigger] final(self).entries()[j]).key,
                    final(self).entries()[j].ts,
                    target.user_key@,
                    target.ts,
                ),
            final(self).pos() < final(self).entries().len() ==> !version_lt(
                final(self).entries()[final(self).pos()].key,
                final(self).entries()[final(self).pos()].ts,
                target.user_key@,
                target.ts,
            ),
            found == (final(self).pos() < final(self).entries().len()),
    {
        let n = self.entries.len();
        let mut i: usize = self.pos;
        if i > 0 {
            if !entry_before(&self.entries[i - 1], target) {
                // The position has overshot the target: reposition from the
                // start of the region.
                i = 0;
                stats.inc_seek();
            } else {
                stats.inc_next();
                proof {
                    let s = self.entries();
                    assert forall|j: int| 0 <= j < i implies version_lt(
                        (#[trigger] s[j]).key,
                        s[j].ts,
                        target.user_key@,
                        target.ts,
                    ) by {
                        if j < i - 1 {
                            assert(version_lt(s[j].key, s[j].ts, s[i - 1].key, s[i - 1].ts));
                            lemma_version_lt_trans(
                                s[j].key,
                                s[j].ts,
                                s[i - 1].key,
                                s[i - 1].ts,
                                target.user_key@,
                                target.ts,
                            );
                        }
                    }
                }
            }
        } else {
            stats.inc_seek();
        }
        while i < n && entry_before(&self.entries[i], target)
            invariant
                0 <= i <= n,
                n == self.entries().len(),
                self.wf(),
                region_sorted(self.entries()),
                self.entries() == old(self).entries(),
                forall|j: int|
                    0 <= j < i ==> version_lt(
                        (#[trigger] self.entries()[j]).key,
                        self.entries()[j].ts,
                        target.user_key@,
                        target.ts,
                    ),
            decreases n - i,
        {
            stats.inc_next();
            i = i + 1;
        }
        self.pos = i;
        i < n
    }

    /// The versioned key of the current entry.
    pub fn key(&self, stats: &mut CfStatistics) -> (r: VersionedKey)
        requires
            self.pos() < self.entries().len(),
        ensures
            r.user_key@ == self.entries()[self.pos()].key,
            r.ts == self.entries()[self.pos()].ts,
    {
        stats.inc_get();
        let e = &self.entries[self.pos];
        VersionedKey { user_key: copy_bytes(&e.key), ts: e.ts }
    }

    /// The stored bytes of the current entry.
    pub fn value(&self, stats: &mut CfStatistics) -> (r: Vec<u8>)
        requires
            self.pos() < self.entries().len(),
        ensures
            r@ == self.entries()[self.pos()].value,
    {
        stats.inc_get();
        copy_bytes(&self.entries[self.pos].value)
    }

    /// Step to the next entry (the next older version, or the next user key).
    pub fn next(&mut self, stats: &mut CfStatistics)
        requires
            old(self).wf(),
        ensures
            final(self).wf(),
            final(self).entries() == old(self).entries(),
            final(self).pos() == if old(self).pos() < old(self).entries().len() {
                old(self).pos() + 1
            } else {
                old(self).pos()
            },
    {
        stats.inc_next();
        if self.pos < self.entries.len() {
            self.pos = self.pos + 1;
        }
    }
}

} // verus!
