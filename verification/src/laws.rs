//! The guarantees of the read path, stated and proved over the model.
//!
//! Each law here is a statement about `resolve_spec` (or the version walk
//! `lookup_visible` underneath it), the function that `read_next`'s contract
//! equates its result with: what the laws say of the model therefore holds of
//! every resolve call.

use vstd::prelude::*;
use crate::key::version_lt;
use crate::lex::{lemma_lex_lt_irrefl, lemma_lex_lt_trans};
use crate::model::{VersionLookup, lookup_visible, lemma_lookup_none, lemma_lookup_first_decisive,
    resolve_spec, resolve_unlocked, conflicting_lock, result_view};
use crate::snapshot::{EntryV, LockEntryV, data_value_of, lock_of, region_sorted};
use crate::types::{Error, IsolationLevel, Value};
use crate::write::{WriteV, WriteType, parse_write};

verus! {

/// A key with no write records resolves to "not found", at any timestamp,
/// under any configuration (provided no conflicting lock intercepts the read
/// first).
pub proof fn lemma_no_write_records_not_found(
    writes: Seq<EntryV>,
    defaults: Seq<EntryV>,
    locks: Seq<LockEntryV>,
    omit_value: bool,
    isolation_level: IsolationLevel,
    key: Seq<u8>,
    ts: u64,
)
    requires
        forall|i: int| 0 <= i < writes.len() ==> (#[trigger] writes[i]).key != key,
        isolation_level == IsolationLevel::Si ==> (conflicting_lock(locks, key, ts) is None),
    ensures
        resolve_spec(writes, defaults, locks, omit_value, isolation_level, key, ts)
            == Ok::<Option<Seq<u8>>, Error>(None),
{
    lemma_lookup_none(writes, key, ts);
}

/// If the latest committed version of `key` at or below `ts` is a `Put`, the
/// key resolves to that `Put`'s value: the inlined short value if the record
/// carries one, the value-store payload otherwise — and to a zero-length
/// placeholder when the reader omits values. "Latest" is meant over a sorted
/// write index: every version of the key above this record's timestamp (up to
/// `ts`) is a skippable `Lock` or `Rollback`.
pub proof fn lemma_latest_put_resolves_to_value(
    writes: Seq<EntryV>,
    defaults: Seq<EntryV>,
    key: Seq<u8>,
    ts: u64,
    i: int,
    w: WriteV,
)
    requires
        region_sorted(writes),
        0 <= i < writes.len(),
        writes[i].key == key,
        writes[i].ts <= ts,
        parse_write(writes[i].value) == Some(w),
        w.write_type == WriteType::Put,
        forall|j: int|
            0 <= j < writes.len() && (#[trigger] writes[j]).key == key && writes[i].ts
                < writes[j].ts <= ts ==> (parse_write(writes[j].value) matches Some(u)
                && !u.write_type.is_decisive()),
    ensures
        lookup_visible(writes, key, ts) == VersionLookup::Found(w),
        w.short_value matches Some(v) ==> resolve_unlocked(writes, defaults, false, key, ts)
            == Ok::<Option<Seq<u8>>, Error>(Some(v)),
        w.short_value is None ==> resolve_unlocked(writes, defaults, false, key, ts) == (match
        data_value_of(defaults, key, w.start_ts) {
            Some(v) => Ok::<Option<Seq<u8>>, Error>(Some(v)),
            None => Err::<Option<Seq<u8>>, Error>(Error::DefaultNotFound),
        }),
        resolve_unlocked(writes, defaults, true, key, ts) == Ok::<Option<Seq<u8>>, Error>(
            Some(Seq::<u8>::empty()),
        ),
{
    lemma_earlier_same_key_versions_skippable(writes, key, ts, i);
    lemma_lookup_first_decisive(writes, key, ts, i, w);
}

/// If the latest committed version of `key` at or below `ts` is a `Delete`,
/// the key resolves to "not found" — whatever older versions (including
/// `Put`s at lower timestamps) exist, since the walk stops at the tombstone.
pub proof fn lemma_latest_delete_resolves_to_none(
    writes: Seq<EntryV>,
    defaults: Seq<EntryV>,
    omit_value: bool,
    key: Seq<u8>,
    ts: u64,
    i: int,
    w: WriteV,
)
    requires
        region_sorted(writes),
        0 <= i < writes.len(),
        writes[i].key == key,
        writes[i].ts <= ts,
        parse_write(writes[i].value) == Some(w),
        w.write_type == WriteType::Delete,
        forall|j: int|
            0 <= j < writes.len() && (#[trigger] writes[j]).key == key && writes[i].ts
                < writes[j].ts <= ts ==> (parse_write(writes[j].value) matches Some(u)
                && !u.write_type.is_decisive()),
    ensures
        lookup_visible(writes, key, ts) == VersionLookup::Found(w),
        resolve_unlocked(writes, defaults, omit_value, key, ts) == Ok::<Option<Seq<u8>>, Error>(
            None,
        ),
{
    lemma_earlier_same_key_versions_skippable(writes, key, ts, i);
    lemma_lookup_first_decisive(writes, key, ts, i, w);
}

/// In a sorted write index, the versions of `key` at or below `ts` that
/// precede index `i` in region order are exactly those with a higher
/// timestamp than `writes[i]`; under the "all higher versions are skippable"
/// premise of the two lemmas above, they are all skippable.
proof fn lemma_earlier_same_key_versions_skippable(
    writes: Seq<EntryV>,
    key: Seq<u8>,
    ts: u64,
    i: int,
)
    requires
        region_sorted(writes),
        0 <= i < writes.len(),
        writes[i].key == key,
        forall|j: int|
            0 <= j < writes.len() && (#[trigger] writes[j]).key == key && writes[i].ts
                < writes[j].ts <= ts ==> (parse_write(writes[j].value) matches Some(u)
                && !u.write_type.is_decisive()),
    ensures
        forall|j: int|
            0 <= j < i && (#[trigger] writes[j]).key == key && writes[j].ts <= ts ==> (parse_write(
                writes[j].value,
            ) matches Some(u) && !u.write_type.is_decisive()),
{
    assert forall|j: int|
        0 <= j < i && (#[trigger] writes[j]).key == key && writes[j].ts <= ts implies (parse_write(
        writes[j].value,
    ) matches Some(u) && !u.write_type.is_decisive()) by {
        assert(version_lt(writes[j].key, writes[j].ts, writes[i].key, writes[i].ts));
        lemma_lex_lt_irrefl(key);
        assert(writes[j].ts > writes[i].ts);
    }
}

/// In a sorted region all versions of one user key are contiguous: every
/// entry between two versions of a key is itself a version of that key. This
/// is what lets the version walk stop as soon as the cursor leaves the
/// requested key's run.
pub proof fn lemma_key_versions_contiguous(s: Seq<EntryV>, i: int, m: int, j: int)
    requires
        region_sorted(s),
        0 <= i <= m <= j < s.len(),
        s[i].key == s[j].key,
    ensures
        s[m].key == s[i].key,
{
    if i < m && m < j {
        assert(version_lt(s[i].key, s[i].ts, s[m].key, s[m].ts));
        assert(version_lt(s[m].key, s[m].ts, s[j].key, s[j].ts));
        if s[m].key != s[i].key {
            lemma_lex_lt_trans(s[i].key, s[m].key, s[j].key);
            lemma_lex_lt_irrefl(s[i].key);
        }
    }
}

/// `Lock` and `Rollback` records are transparent: inserting one anywhere in
/// the write index leaves the outcome of every version walk unchanged (and
/// hence, record by record, inserting any number of them does).
pub proof fn lemma_skippable_insert_transparent(
    s: Seq<EntryV>,
    key: Seq<u8>,
    ts: u64,
    i: int,
    e: EntryV,
)
    requires
        0 <= i <= s.len(),
        parse_write(e.value) matches Some(u) && !u.write_type.is_decisive(),
    ensures
        lookup_visible(s.insert(i, e), key, ts) == lookup_visible(s, key, ts),
    decreases i,
{
    let t = s.insert(i, e);
    if i == 0 {
        assert(t[0] == e);
        assert(t.drop_first() =~= s);
    } else {
        assert(t[0] == s[0]);
        assert(t.drop_first() =~= s.drop_first().insert(i - 1, e));
        lemma_skippable_insert_transparent(s.drop_first(), key, ts, i - 1, e);
    }
}

/// Two resolve calls that see the same regions and the same configuration
/// return identical results: the premises are exactly what `read_next`'s
/// contract gives for two consecutive calls of a multi-use reader, whose
/// snapshot and configuration it leaves unchanged.
pub proof fn lemma_resolve_idempotent(
    r1: Result<Option<Value>, Error>,
    r2: Result<Option<Value>, Error>,
    writes: Seq<EntryV>,
    defaults: Seq<EntryV>,
    locks: Seq<LockEntryV>,
    omit_value: bool,
    isolation_level: IsolationLevel,
    key: Seq<u8>,
    ts: u64,
)
    requires
        result_view(r1) == resolve_spec(writes, defaults, locks, omit_value, isolation_level, key, ts),
        result_view(r2) == resolve_spec(writes, defaults, locks, omit_value, isolation_level, key, ts),
    ensures
        result_view(r1) == result_view(r2),
{
}

/// A single-use reader that has served its call admits no second one: after
/// any `read_next` the one-shot guard is set (its contract ensures so), and
/// for a reader built with `multi == false` the set guard contradicts
/// `read_next`'s precondition. A verified caller is therefore stopped at
/// verification time; an unverified caller that makes the call anyway aborts
/// at run time rather than receive a value from the prefix-restricted
/// cursors.
pub proof fn lemma_single_use_reader_excludes_second_call(g: crate::point_getter::PointGetter)
    requires
        !g.multi_cfg(),
        g.read_once_spec(),
    ensures
        !(g.multi_cfg() || !g.read_once_spec()),
{
}

/// Strict isolation honors locks, relaxed isolation ignores them: a lock on
/// `key` whose start timestamp is at or below `ts` makes a snapshot-isolation
/// read fail with the conflict error; a lock above `ts` does not intercept
/// it; and a read-committed read proceeds to the version walk whatever locks
/// exist.
pub proof fn lemma_isolation_level_vs_locks(
    writes: Seq<EntryV>,
    defaults: Seq<EntryV>,
    locks: Seq<LockEntryV>,
    omit_value: bool,
    key: Seq<u8>,
    ts: u64,
    l: u64,
)
    requires
        lock_of(locks, key) == Some(l),
    ensures
        l <= ts ==> resolve_spec(writes, defaults, locks, omit_value, IsolationLevel::Si, key, ts)
            == Err::<Option<Seq<u8>>, Error>(Error::KeyIsLocked { lock_ts: l }),
        l > ts ==> resolve_spec(writes, defaults, locks, omit_value, IsolationLevel::Si, key, ts)
            == resolve_unlocked(writes, defaults, omit_value, key, ts),
        resolve_spec(writes, defaults, locks, omit_value, IsolationLevel::Rc, key, ts)
            == resolve_unlocked(writes, defaults, omit_value, key, ts),
{
}

} // verus!
