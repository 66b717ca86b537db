//! Point-lookup read path of a multi-version concurrency control (MVCC)
//! storage layer.
//!
//! Given a user key and a logical read timestamp, the reader returns the
//! visible value (or absence) under snapshot isolation, honoring in-flight
//! write locks and version history. Three physical storage regions — a lock
//! region, a chronological write index, and a value store — are reconciled
//! into one consistent logical read.

pub mod cursor;
pub mod key;
pub mod laws;
pub mod lex;
pub mod model;
pub mod point_getter;
pub mod snapshot;
pub mod statistics;
pub mod types;
pub mod util;
pub mod write;
