//! The lock-check and value-fetch collaborators of the point reader.

use vstd::prelude::*;
use crate::cursor::Cursor;
use crate::key::{Key, version_lt, lemma_version_lt_irrefl, lemma_version_lt_trans,
    lemma_version_lt_connected};
use crate::lex::bytes_eq;
use crate::model::conflicting_lock;
use crate::snapshot::{Snapshot, region_sorted, data_value_of, lemma_data_value_of_first_match,
    lemma_data_value_of_none};
use crate::statistics::{CfStatistics, Statistics, sat_inc};
use crate::types::{Error, Value};
use crate::write::Write;

verus! {

/// Check whether an in-flight transaction holds a conflicting lock on `key`:
/// one whose start timestamp is at or below the read timestamp. A conflict is
/// a write-conflict error; otherwise the read goes ahead, at the timestamp
/// this check hands back.
pub fn load_and_check_lock(
    snapshot: &Snapshot,
    key: &Key,
    ts: u64,
    statistics: &mut Statistics,
) -> (r: Result<u64, Error>)
    ensures
        r == (match conflicting_lock(snapshot.locks_view(), key@, ts) {
            Some(l) => Err::<u64, Error>(Error::KeyIsLocked { lock_ts: l }),
            None => Ok::<u64, Error>(ts),
        }),
        *final(statistics) == (Statistics {
            lock: CfStatistics { get: sat_inc(old(statistics).lock.get), ..old(statistics).lock },
            ..*old(statistics)
        }),
{
    statistics.lock.inc_get();
    match snapshot.lock_ts_of(key) {
        Some(lock_ts) => {
            if lock_ts <= ts {
                Err(Error::KeyIsLocked { lock_ts })
            } else {
                Ok(ts)
            }
        },
        None => Ok(ts),
    }
}

/// Fetch from the value store the payload of a `Put` record that carries no
/// inlined value: the payload is stored under the user key and the record's
/// start timestamp. A missing entry is data corruption.
pub fn load_data_by_write(
    default_cursor: &mut Cursor,
    key: &Key,
    write: Write,
    statistics: &mut Statistics,
) -> (r: Result<Value, Error>)
    requires
        old(default_cursor).wf(),
        region_sorted(old(default_cursor).entries()),
    ensures
        final(default_cursor).wf(),
        final(default_cursor).entries() == old(default_cursor).entries(),
        r.is_ok() == (data_value_of(old(default_cursor).entries(), key@, write.start_ts)
            is Some),
        r matches Ok(v) ==> Some(v@) == data_value_of(
            old(default_cursor).entries(),
            key@,
            write.start_ts,
        ),
        r matches Err(e) ==> e == Error::DefaultNotFound,
        final(statistics).lock == old(statistics).lock,
        final(statistics).write == old(statistics).write,
{
    let ghost s = old(default_cursor).entries();
    let ghost tkey = key@;
    let ghost tts = write.start_ts;
    let target = key.append_ts(write.start_ts);
    let found = default_cursor.near_seek(&target, &mut statistics.data);
    let ghost p = default_cursor.pos();
    proof {
        assert forall|j: int| 0 <= j < p implies !((#[trigger] s[j]).key == tkey && s[j].ts
            == tts) by {
            if s[j].key == tkey && s[j].ts == tts {
                lemma_version_lt_irrefl(tkey, tts);
            }
        }
    }
    if found {
        let ek = default_cursor.key(&mut statistics.data);
        if bytes_eq(&ek.user_key, key.as_bytes()) && ek.ts == write.start_ts {
            statistics.data.inc_processed();
            let v = default_cursor.value(&mut statistics.data);
            proof {
                lemma_data_value_of_first_match(s, tkey, tts, p);
            }
            return Ok(v);
        }
        // The first entry at or after the target is not the target: the
        // target is absent.
        proof {
            if !version_lt(tkey, tts, s[p].key, s[p].ts) {
                lemma_version_lt_connected(s[p].key, s[p].ts, tkey, tts);
            }
            assert(version_lt(tkey, tts, s[p].key, s[p].ts));
            assert forall|j: int| 0 <= j < s.len() implies !((#[trigger] s[j]).key == tkey
                && s[j].ts == tts) by {
                if s[j].key == tkey && s[j].ts == tts {
                    if j > p {
                        assert(version_lt(s[p].key, s[p].ts, s[j].key, s[j].ts));
                        lemma_version_lt_trans(tkey, tts, s[p].key, s[p].ts, s[j].key, s[j].ts);
                        lemma_version_lt_irrefl(tkey, tts);
                    } else if j == p {
                        lemma_version_lt_irrefl(tkey, tts);
                    }
                }
            }
            lemma_data_value_of_none(s, tkey, tts);
        }
        return Err(Error::DefaultNotFound);
    }
    // The cursor is exhausted: every entry sorts before the target.
    proof {
        lemma_data_value_of_none(s, tkey, tts);
    }
    Err(Error::DefaultNotFound)
}

} // verus!
