//! The mathematical model of a point read.
//!
//! `resolve_spec` says, over the views of the three storage regions, exactly
//! what one resolve call returns for a key and a read timestamp. The reader's
//! contract equates its result with this function.

use vstd::prelude::*;
use crate::snapshot::{EntryV, LockEntryV, data_value_of, lock_of};
use crate::types::{Error, IsolationLevel, Value};
use crate::write::{WriteV, WriteType, parse_write};

verus! {

/// What the version walk over the write index finds.
pub enum VersionLookup {
    /// A record in the walked run could not be decoded.
    Corrupt,
    /// The walk ran out of versions of the key at or below the timestamp
    /// without meeting a decisive record.
    NotFound,
    /// The newest decisive record (`Put` or `Delete`) of the key at or below
    /// the timestamp.
    Found(WriteV),
}

/// Walk the write index in region order (newest version first) and find the
/// first record of `key` at or below `ts` that decides the read. `Lock` and
/// `Rollback` records are skipped; versions of other keys or above `ts` are
/// ignored; a record of the key that does not decode stops the walk as
/// corruption.
pub open spec fn lookup_visible(s: Seq<EntryV>, key: Seq<u8>, ts: u64) -> VersionLookup
    decreases s.len(),
{
    if s.len() == 0 {
        VersionLookup::NotFound
    } else if s[0].key == key && s[0].ts <= ts {
        match parse_write(s[0].value) {
            None => VersionLookup::Corrupt,
            Some(w) => if w.write_type.is_decisive() {
                VersionLookup::Found(w)
            } else {
                lookup_visible(s.drop_first(), key, ts)
            },
        }
    } else {
        lookup_visible(s.drop_first(), key, ts)
    }
}

/// Entries that are not versions of `key` at or below `ts` do not affect the
/// walk: the walk over `s` equals the walk over `s` with such a prefix
/// removed.
pub proof fn lemma_lookup_skip(s: Seq<EntryV>, key: Seq<u8>, ts: u64, p: int)
    requires
        0 <= p <= s.len(),
        forall|j: int| 0 <= j < p ==> !((#[trigger] s[j]).key == key && s[j].ts <= ts),
    ensures
        lookup_visible(s, key, ts) == lookup_visible(s.skip(p), key, ts),
    decreases p,
{
    if p > 0 {
        lemma_lookup_skip(s.drop_first(), key, ts, p - 1);
        assert(s.drop_first().skip(p - 1) =~= s.skip(p));
    } else {
        assert(s.skip(0) =~= s);
    }
}

/// A walk over entries none of which is a version of `key` at or below `ts`
/// finds nothing.
pub proof fn lemma_lookup_none(s: Seq<EntryV>, key: Seq<u8>, ts: u64)
    requires
        forall|j: int| 0 <= j < s.len() ==> !((#[trigger] s[j]).key == key && s[j].ts <= ts),
    ensures
        lookup_visible(s, key, ts) == VersionLookup::NotFound,
    decreases s.len(),
{
    if s.len() > 0 {
        lemma_lookup_none(s.drop_first(), key, ts);
    }
}

/// If `s[i]` is a decodable decisive version of `key` at or below `ts`, and
/// every earlier version of `key` at or below `ts` decodes to a skippable
/// record, the walk finds exactly `s[i]`'s record.
pub proof fn lemma_lookup_first_decisive(s: Seq<EntryV>, key: Seq<u8>, ts: u64, i: int, w: WriteV)
    requires
        0 <= i < s.len(),
        s[i].key == key,
        s[i].ts <= ts,
        parse_write(s[i].value) == Some(w),
        w.write_type.is_decisive(),
        forall|j: int|
            0 <= j < i && (#[trigger] s[j]).key == key && s[j].ts <= ts ==> (parse_write(
                s[j].value,
            ) matches Some(u) && !u.write_type.is_decisive()),
    ensures
        lookup_visible(s, key, ts) == VersionLookup::Found(w),
    decreases i,
{
    if i > 0 {
        lemma_lookup_first_decisive(s.drop_first(), key, ts, i - 1, w);
    }
}

/// What a resolve call returns once the lock check (if any) has passed.
pub open spec fn resolve_unlocked(
    writes: Seq<EntryV>,
    defaults: Seq<EntryV>,
    omit_value: bool,
    key: Seq<u8>,
    ts: u64,
) -> Result<Option<Seq<u8>>, Error> {
    match lookup_visible(writes, key, ts) {
        VersionLookup::Corrupt => Err(Error::BadFormatWrite),
        VersionLookup::NotFound => Ok(None),
        VersionLookup::Found(w) => {
            if w.write_type == WriteType::Delete {
                Ok(None)
            } else if omit_value {
                Ok(Some(Seq::<u8>::empty()))
            } else {
                match w.short_value {
                    Some(v) => Ok(Some(v)),
                    None => match data_value_of(defaults, key, w.start_ts) {
                        Some(v) => Ok(Some(v)),
                        None => Err(Error::DefaultNotFound),
                    },
                }
            }
        },
    }
}

/// The start timestamp of a lock that conflicts with reading `key` at `ts`,
/// if one is held: a lock conflicts when its start timestamp is at or below
/// the read timestamp.
pub open spec fn conflicting_lock(locks: Seq<LockEntryV>, key: Seq<u8>, ts: u64) -> Option<u64> {
    match lock_of(locks, key) {
        Some(l) => if l <= ts {
            Some(l)
        } else {
            None
        },
        None => None,
    }
}

/// What one resolve call returns, over the views of the three regions and the
/// reader's configuration.
pub open spec fn resolve_spec(
    writes: Seq<EntryV>,
    defaults: Seq<EntryV>,
    locks: Seq<LockEntryV>,
    omit_value: bool,
    isolation_level: IsolationLevel,
    key: Seq<u8>,
    ts: u64,
) -> Result<Option<Seq<u8>>, Error> {
    if isolation_level == IsolationLevel::Si {
        match conflicting_lock(locks, key, ts) {
            Some(l) => Err(Error::KeyIsLocked { lock_ts: l }),
            None => resolve_unlocked(writes, defaults, omit_value, key, ts),
        }
    } else {
        resolve_unlocked(writes, defaults, omit_value, key, ts)
    }
}

/// Whether a resolve call consults the value store: only when no conflicting
/// lock intercepts it, values are not omitted, and the version walk finds a
/// `Put` without an inlined short value. Exactly these calls create (or
/// reuse) the reader's value-store cursor and move its value-store counters.
pub open spec fn consults_value_store(
    writes: Seq<EntryV>,
    locks: Seq<LockEntryV>,
    omit_value: bool,
    isolation_level: IsolationLevel,
    key: Seq<u8>,
    ts: u64,
) -> bool {
    &&& (isolation_level == IsolationLevel::Si ==> (conflicting_lock(locks, key, ts) is None))
    &&& !omit_value
    &&& match lookup_visible(writes, key, ts) {
        VersionLookup::Found(w) => w.write_type == WriteType::Put && w.short_value is None,
        _ => false,
    }
}

/// The view of a resolve result: values become byte sequences.
pub open spec fn result_view(r: Result<Option<Value>, Error>) -> Result<
    Option<Seq<u8>>,
    Error,
> {
    match r {
        Ok(None) => Ok(None),
        Ok(Some(v)) => Ok(Some(v@)),
        Err(e) => Err(e),
    }
}

} // verus!
