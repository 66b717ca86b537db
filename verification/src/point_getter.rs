//! The point reader and its builder.
//!
//! The builder assembles a configured reader from a snapshot and a small set
//! of read options. The reader owns one cursor into the write index and a
//! lazily created cursor into the value store, and exposes one logical
//! operation: resolve a user key at a timestamp. Its contract equates the
//! outcome with `resolve_spec`, the mathematical model of a point read.

use vstd::prelude::*;
use vstd::pervasive::unreached;
use crate::cursor::Cursor;
use crate::key::{Key, version_lt, lemma_version_lt_trans};
use crate::lex::{lex_lt, bytes_eq, lemma_lex_lt_irrefl, lemma_lex_lt_trans, lemma_lex_lt_connected};
use crate::model::{VersionLookup, lookup_visible, lemma_lookup_skip, lemma_lookup_none,
    resolve_spec, conflicting_lock, consults_value_store, result_view};
use crate::snapshot::{Snapshot, Cf, IterOptions, ScanMode, EntryV};
use crate::statistics::{CfStatistics, Statistics, sat_inc};
use crate::types::{Error, IsolationLevel, Value};
use crate::util;
use crate::write::{Write, WriteType};

verus! {

/// Build cursor construction options from the reader configuration. A reader
/// meant for a single resolve call restricts its cursors to one key prefix
/// (an engine-level index optimization); a multi-use reader must not.
fn build_iter_opt(fill_cache: bool, prefix_filter: bool) -> (r: IterOptions)
    ensures
        r.fill_cache == fill_cache,
        r.prefix_seek == prefix_filter,
{
    IterOptions { fill_cache, prefix_seek: prefix_filter }
}

/// `PointGetter` factory: an immutable configuration around a snapshot,
/// consumed by `build`.
pub struct PointGetterBuilder {
    snapshot: Snapshot,
    multi: bool,
    fill_cache: bool,
    omit_value: bool,
    isolation_level: IsolationLevel,
}

impl PointGetterBuilder {
    /// The snapshot the reader will be built over.
    pub closed spec fn snap(self) -> Snapshot {
        self.snapshot
    }

    /// The configured multi-use flag.
    pub closed spec fn multi_cfg(self) -> bool {
        self.multi
    }

    /// The configured cache-fill flag.
    pub closed spec fn fill_cache_cfg(self) -> bool {
        self.fill_cache
    }

    /// The configured value-omission flag.
    pub closed spec fn omit_value_cfg(self) -> bool {
        self.omit_value
    }

    /// The configured isolation level.
    pub closed spec fn iso_cfg(self) -> IsolationLevel {
        self.isolation_level
    }

    /// Initialize a new `PointGetterBuilder` with the default configuration:
    /// multi-use, cache-filling, value-returning, snapshot isolation.
    pub fn new(snapshot: Snapshot) -> (b: PointGetterBuilder)
        ensures
            b.snap() == snapshot,
            b.multi_cfg(),
            b.fill_cache_cfg(),
            !b.omit_value_cfg(),
            b.iso_cfg() == IsolationLevel::Si,
    {
        PointGetterBuilder {
            snapshot,
            multi: true,
            fill_cache: true,
            omit_value: false,
            isolation_level: IsolationLevel::Si,
        }
    }

    /// Set whether multiple resolve calls will be made. When `multi` is
    /// `false` the reader's cursors are built with a same-prefix restriction,
    /// which is faster but makes any second call invalid; the reader's
    /// one-shot guard enforces that.
    ///
    /// Defaults to `true`.
    pub fn multi(self, multi: bool) -> (b: PointGetterBuilder)
        ensures
            b.snap() == self.snap(),
            b.multi_cfg() == multi,
            b.fill_cache_cfg() == self.fill_cache_cfg(),
            b.omit_value_cfg() == self.omit_value_cfg(),
            b.iso_cfg() == self.iso_cfg(),
    {
        PointGetterBuilder { multi, ..self }
    }

    /// Set whether read operations should fill the engine cache. Engine-level
    /// tuning only; no effect on results.
    ///
    /// Defaults to `true`.
    pub fn fill_cache(self, fill_cache: bool) -> (b: PointGetterBuilder)
        ensures
            b.snap() == self.snap(),
            b.multi_cfg() == self.multi_cfg(),
            b.fill_cache_cfg() == fill_cache,
            b.omit_value_cfg() == self.omit_value_cfg(),
            b.iso_cfg() == self.iso_cfg(),
    {
        PointGetterBuilder { fill_cache, ..self }
    }

    /// Set whether values should be omitted: a resolved `Put` then returns a
    /// zero-length placeholder instead of the payload, confirming existence
    /// while saving the value-store fetch.
    ///
    /// Defaults to `false`.
    pub fn omit_value(self, omit_value: bool) -> (b: PointGetterBuilder)
        ensures
            b.snap() == self.snap(),
            b.multi_cfg() == self.multi_cfg(),
            b.fill_cache_cfg() == self.fill_cache_cfg(),
            b.omit_value_cfg() == omit_value,
            b.iso_cfg() == self.iso_cfg(),
    {
        PointGetterBuilder { omit_value, ..self }
    }

    /// Set the isolation level.
    ///
    /// Defaults to `IsolationLevel::Si`.
    pub fn isolation_level(self, isolation_level: IsolationLevel) -> (b: PointGetterBuilder)
        ensures
            b.snap() == self.snap(),
            b.multi_cfg() == self.multi_cfg(),
            b.fill_cache_cfg() == self.fill_cache_cfg(),
            b.omit_value_cfg() == self.omit_value_cfg(),
            b.iso_cfg() == isolation_level,
    {
        PointGetterBuilder { isolation_level, ..self }
    }

    /// Build a `PointGetter` from the current configuration. The write-index
    /// cursor is constructed eagerly; the value-store cursor is left for the
    /// first resolve call that needs it.
    pub fn build(self) -> (r: Result<PointGetter, Error>)
        requires
            self.snap().wf(),
        ensures
            r is Ok,
            r matches Ok(g) ==> g.wf() && g.snap() == self.snap() && g.multi_cfg()
                == self.multi_cfg() && g.fill_cache_cfg() == self.fill_cache_cfg()
                && g.omit_value_cfg() == self.omit_value_cfg() && g.iso_cfg() == self.iso_cfg()
                && !g.read_once_spec() && g.stats_spec().is_zero() && (g.default_cursor_spec()
                is None),
    {
        let write_cursor = self.snapshot.iter_cf(
            Cf::Write,
            build_iter_opt(self.fill_cache, !self.multi),
            ScanMode::Forward,
        );
        Ok(
            PointGetter {
                snapshot: self.snapshot,
                multi: self.multi,
                fill_cache: self.fill_cache,
                omit_value: self.omit_value,
                isolation_level: self.isolation_level,
                statistics: Statistics::new(),
                read_once: false,
                write_cursor,
                default_cursor: None,
            },
        )
    }
}

/// A stateful point reader over one snapshot.
///
/// Internally, `Lock` and `Rollback` records are skipped and older versions
/// are tried until a decisive record settles the read. Under snapshot
/// isolation, locks are checked first.
///
/// When built with `multi == false` the cursors carry a prefix restriction,
/// so `read_next` must be called at most once; a second call is a programming
/// error and aborts. When built with `multi == true` the reader serves any
/// number of calls, at its best when keys arrive in ascending, clustered
/// order.
///
/// Use `PointGetterBuilder` to build a `PointGetter`.
pub struct PointGetter {
    snapshot: Snapshot,
    multi: bool,
    fill_cache: bool,
    omit_value: bool,
    isolation_level: IsolationLevel,
    statistics: Statistics,
    /// Whether a `read_next` call has already happened. When `multi ==
    /// false`, guards against a second call.
    read_once: bool,
    write_cursor: Cursor,
    /// The value-store cursor is created on first need and then reused; a
    /// read resolved from an inlined short value never needs it.
    default_cursor: Option<Cursor>,
}

impl PointGetter {
    /// The snapshot the reader reads from.
    pub closed spec fn snap(self) -> Snapshot {
        self.snapshot
    }

    /// The multi-use flag the reader was built with.
    pub closed spec fn multi_cfg(self) -> bool {
        self.multi
    }

    /// The cache-fill flag the reader was built with.
    pub closed spec fn fill_cache_cfg(self) -> bool {
        self.fill_cache
    }

    /// The value-omission flag the reader was built with.
    pub closed spec fn omit_value_cfg(self) -> bool {
        self.omit_value
    }

    /// The isolation level the reader was built with.
    pub closed spec fn iso_cfg(self) -> IsolationLevel {
        self.isolation_level
    }

    /// The statistics accumulated since construction or the last take.
    pub closed spec fn stats_spec(self) -> Statistics {
        self.statistics
    }

    /// Whether a resolve call has already happened.
    pub closed spec fn read_once_spec(self) -> bool {
        self.read_once
    }

    /// The write-index cursor.
    pub closed spec fn write_cursor_spec(self) -> Cursor {
        self.write_cursor
    }

    /// The value-store cursor, once created.
    pub closed spec fn default_cursor_spec(self) -> Option<Cursor> {
        self.default_cursor
    }

    /// The reader's invariant: the snapshot keeps the engine's ordering
    /// guarantees and each cursor ranges over its region of that snapshot.
    pub open spec fn wf(self) -> bool {
        &&& self.snap().wf()
        &&& self.write_cursor_spec().wf()
        &&& self.write_cursor_spec().entries() == self.snap().writes_view()
        &&& match self.default_cursor_spec() {
            Some(c) => c.wf() && c.entries() == self.snap().defaults_view(),
            None => true,
        }
    }

    /// Take out and reset the statistics collected so far. Cursor positions
    /// and configuration are untouched, so the reader remains usable.
    pub fn take_statistics(&mut self) -> (r: Statistics)
        ensures
            r == old(self).stats_spec(),
            final(self).stats_spec().is_zero(),
            final(self).wf() == old(self).wf(),
            final(self).snap() == old(self).snap(),
            final(self).multi_cfg() == old(self).multi_cfg(),
            final(self).fill_cache_cfg() == old(self).fill_cache_cfg(),
            final(self).omit_value_cfg() == old(self).omit_value_cfg(),
            final(self).iso_cfg() == old(self).iso_cfg(),
            final(self).read_once_spec() == old(self).read_once_spec(),
            final(self).write_cursor_spec() == old(self).write_cursor_spec(),
            final(self).default_cursor_spec() == old(self).default_cursor_spec(),
    {
        let r = self.statistics;
        self.statistics = Statistics::new();
        r
    }

    /// Get the value of a user key visible at `ts`. See `PointGetter` for
    /// details: the result is exactly what `resolve_spec` says for the
    /// snapshot's regions, the reader's configuration, the key and the
    /// timestamp.
    ///
    /// A reader built with `multi == false` must not be called twice; a
    /// second call aborts rather than serve a semantically invalid seek.
    #[verifier::loop_isolation(false)]
    pub fn read_next(&mut self, key: &Key, ts: u64) -> (r: Result<Option<Value>, Error>)
        requires
            old(self).wf(),
            old(self).multi_cfg() || !old(self).read_once_spec(),
        ensures
            final(self).wf(),
            final(self).snap() == old(self).snap(),
            final(self).multi_cfg() == old(self).multi_cfg(),
            final(self).fill_cache_cfg() == old(self).fill_cache_cfg(),
            final(self).omit_value_cfg() == old(self).omit_value_cfg(),
            final(self).iso_cfg() == old(self).iso_cfg(),
            final(self).read_once_spec(),
            result_view(r) == resolve_spec(
                old(self).snap().writes_view(),
                old(self).snap().defaults_view(),
                old(self).snap().locks_view(),
                old(self).omit_value_cfg(),
                old(self).iso_cfg(),
                key@,
                ts,
            ),
            // The value-store cursor exists afterwards exactly if it already
            // existed or this call fetched from the value store; a call that
            // does not consult the value store leaves the slot untouched.
            (final(self).default_cursor_spec() is Some) == ((old(self).default_cursor_spec()
                is Some) || consults_value_store(
                old(self).snap().writes_view(),
                old(self).snap().locks_view(),
                old(self).omit_value_cfg(),
                old(self).iso_cfg(),
                key@,
                ts,
            )),
            !consults_value_store(
                old(self).snap().writes_view(),
                old(self).snap().locks_view(),
                old(self).omit_value_cfg(),
                old(self).iso_cfg(),
                key@,
                ts,
            ) ==> final(self).default_cursor_spec() == old(self).default_cursor_spec(),
            // Value-store counters move only when the value store is
            // consulted; lock counters move exactly once per lock check,
            // which happens only under snapshot isolation.
            !consults_value_store(
                old(self).snap().writes_view(),
                old(self).snap().locks_view(),
                old(self).omit_value_cfg(),
                old(self).iso_cfg(),
                key@,
                ts,
            ) ==> final(self).stats_spec().data == old(self).stats_spec().data,
            old(self).iso_cfg() == IsolationLevel::Si ==> final(self).stats_spec().lock
                == (CfStatistics {
                get: sat_inc(old(self).stats_spec().lock.get),
                ..old(self).stats_spec().lock
            }),
            old(self).iso_cfg() != IsolationLevel::Si ==> final(self).stats_spec().lock == old(
                self,
            ).stats_spec().lock,
    {
        if !self.multi && self.read_once {
            // The prefix-restricted cursors of a single-use reader cannot
            // serve a second key; the precondition rules this path out, and
            // an unverified caller that reaches it anyway aborts loudly.
            return unreached();
        }
        self.read_once = true;

        let mut use_ts = ts;
        if self.isolation_level == IsolationLevel::Si {
            // Check for locks that signal concurrent writes.
            match util::load_and_check_lock(&self.snapshot, key, ts, &mut self.statistics) {
                Ok(t) => {
                    use_ts = t;
                },
                Err(e) => {
                    return Err(e);
                },
            }
        }

        let ghost s = self.snapshot.writes_view();

        // Seek to the newest version of the key at or below the timestamp.
        let vk = key.append_ts(use_ts);
        self.write_cursor.near_seek(&vk, &mut self.statistics.write);

        proof {
            let p0 = self.write_cursor.pos();
            assert forall|j: int| p0 <= j < s.len() implies !version_lt(
                (#[trigger] s[j]).key,
                s[j].ts,
                key@,
                ts,
            ) by {
                if j > p0 && version_lt(s[j].key, s[j].ts, key@, ts) {
                    assert(version_lt(s[p0].key, s[p0].ts, s[j].key, s[j].ts));
                    lemma_version_lt_trans(s[p0].key, s[p0].ts, s[j].key, s[j].ts, key@, ts);
                }
            }
            assert forall|j: int| 0 <= j < p0 implies !((#[trigger] s[j]).key == key@ && s[j].ts
                <= ts) by {
                if s[j].key == key@ {
                    lemma_lex_lt_irrefl(key@);
                }
            }
            lemma_lookup_skip(s, key@, ts, p0);
        }

        loop
            invariant
                self.wf(),
                self.snapshot == old(self).snapshot,
                self.multi == old(self).multi,
                self.fill_cache == old(self).fill_cache,
                self.omit_value == old(self).omit_value,
                self.isolation_level == old(self).isolation_level,
                self.read_once,
                self.default_cursor == old(self).default_cursor,
                self.statistics.data == old(self).statistics.data,
                old(self).isolation_level == IsolationLevel::Si ==> self.statistics.lock
                    == (CfStatistics {
                    get: sat_inc(old(self).statistics.lock.get),
                    ..old(self).statistics.lock
                }),
                old(self).isolation_level != IsolationLevel::Si ==> self.statistics.lock == old(
                    self,
                ).statistics.lock,
                forall|j: int|
                    self.write_cursor_spec().pos() <= j < s.len() ==> !version_lt(
                        (#[trigger] s[j]).key,
                        s[j].ts,
                        key@,
                        ts,
                    ),
                lookup_visible(s, key@, ts) == lookup_visible(
                    s.skip(self.write_cursor_spec().pos()),
                    key@,
                    ts,
                ),
                old(self).iso_cfg() == IsolationLevel::Si ==> (conflicting_lock(
                    old(self).snap().locks_view(),
                    key@,
                    ts,
                ) is None),
            decreases s.len() - self.write_cursor_spec().pos(),
        {
            if !self.write_cursor.valid() {
                // Key space ended: no version of the key remains.
                proof {
                    assert(s.skip(s.len() as int) =~= Seq::<EntryV>::empty());
                }
                return Ok(None);
            }
            let ghost p = self.write_cursor.pos();

            // A seek or step may have left the version run of the requested
            // key; in that case the scan ends.
            let write_key = self.write_cursor.key(&mut self.statistics.write);
            let user_key = write_key.truncate_ts();
            if !bytes_eq(user_key.as_bytes(), key.as_bytes()) {
                proof {
                    if !lex_lt(key@, s[p].key) {
                        lemma_lex_lt_connected(s[p].key, key@);
                    }
                    assert forall|j: int| p <= j < s.len() implies !((#[trigger] s[j]).key == key@
                        && s[j].ts <= ts) by {
                        if j > p && s[j].key == key@ {
                            assert(version_lt(s[p].key, s[p].ts, s[j].key, s[j].ts));
                            if lex_lt(s[p].key, s[j].key) {
                                lemma_lex_lt_trans(key@, s[p].key, s[j].key);
                                lemma_lex_lt_irrefl(key@);
                            }
                        }
                    }
                    assert forall|m: int| 0 <= m < s.skip(p).len() implies !((#[trigger] s.skip(
                        p,
                    )[m]).key == key@ && s.skip(p)[m].ts <= ts) by {
                        assert(s.skip(p)[m] == s[p + m]);
                    }
                    lemma_lookup_none(s.skip(p), key@, ts);
                }
                return Ok(None);
            }

            let value_bytes = self.write_cursor.value(&mut self.statistics.write);
            let parsed = Write::parse(&value_bytes);
            proof {
                assert(s.skip(p)[0] == s[p]);
                assert(s.skip(p).drop_first() =~= s.skip(p + 1));
            }
            let write = match parsed {
                Ok(w) => w,
                Err(e) => {
                    // The record cannot be decoded: index corruption.
                    return Err(e);
                },
            };
            let ghost wv = write@;
            self.statistics.write.inc_processed();
            self.write_cursor.next(&mut self.statistics.write);

            match write.write_type {
                WriteType::Put => {
                    proof {
                        assert(lookup_visible(s.skip(p), key@, ts) == VersionLookup::Found(wv));
                    }
                    if self.omit_value {
                        // Existence confirmed; the payload is withheld.
                        return Ok(Some(Vec::new()));
                    }
                    match write.short_value {
                        Some(value) => {
                            // The value is carried in the record itself.
                            return Ok(Some(value));
                        },
                        None => {
                            // The value lives in the value store.
                            match self.ensure_default_cursor() {
                                Ok(()) => {},
                                Err(e) => {
                                    return Err(e);
                                },
                            }
                            let mut dc = match self.default_cursor.take() {
                                Some(c) => c,
                                None => {
                                    return unreached();
                                },
                            };
                            let res = util::load_data_by_write(
                                &mut dc,
                                key,
                                write,
                                &mut self.statistics,
                            );
                            self.default_cursor = Some(dc);
                            match res {
                                Ok(value) => {
                                    return Ok(Some(value));
                                },
                                Err(e) => {
                                    return Err(e);
                                },
                            }
                        },
                    }
                },
                WriteType::Delete => {
                    proof {
                        assert(lookup_visible(s.skip(p), key@, ts) == VersionLookup::Found(wv));
                    }
                    return Ok(None);
                },
                WriteType::Lock | WriteType::Rollback => {
                    // Non-decisive bookkeeping: continue with the next older
                    // version.
                    proof {
                        assert(lookup_visible(s.skip(p), key@, ts) == lookup_visible(
                            s.skip(p + 1),
                            key@,
                            ts,
                        ));
                    }
                },
            }
        }
    }

    /// Create the value-store cursor if it does not exist yet.
    fn ensure_default_cursor(&mut self) -> (r: Result<(), Error>)
        requires
            old(self).wf(),
        ensures
            r is Ok,
            final(self).wf(),
            final(self).default_cursor is Some,
            old(self).default_cursor is Some ==> final(self).default_cursor == old(
                self,
            ).default_cursor,
            final(self).snapshot == old(self).snapshot,
            final(self).multi == old(self).multi,
            final(self).fill_cache == old(self).fill_cache,
            final(self).omit_value == old(self).omit_value,
            final(self).isolation_level == old(self).isolation_level,
            final(self).statistics == old(self).statistics,
            final(self).read_once == old(self).read_once,
            final(self).write_cursor == old(self).write_cursor,
    {
        if self.default_cursor.is_some() {
            return Ok(());
        }
        let iter_opt = build_iter_opt(self.fill_cache, !self.multi);
        let iter = self.snapshot.iter_cf(Cf::Default, iter_opt, ScanMode::Forward);
        self.default_cursor = Some(iter);
        Ok(())
    }
}

} // verus!
