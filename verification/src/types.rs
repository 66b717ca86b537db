//! Shared value, configuration and error types of the read path.

use vstd::prelude::*;

verus! {

/// A full value payload, as handed back to the caller.
pub type Value = Vec<u8>;

/// The isolation level a reader is configured with.
///
/// Under `Si` (snapshot isolation) every read first checks for a conflicting
/// in-flight lock; under `Rc` (read committed) locks are ignored entirely.
#[derive(Clone, Copy, Debug, PartialEq, Eq, Structural)]
pub enum IsolationLevel {
    /// Strict snapshot isolation: reads are validated against locks.
    Si,
    /// Relaxed isolation: locks are not consulted.
    Rc,
}

/// The errors a read can surface.
#[derive(Clone, Copy, Debug, PartialEq, Eq, Structural)]
pub enum Error {
    /// A concurrent transaction holds a conflicting lock on the key: its
    /// start timestamp is at or below the requested read timestamp. Typically
    /// retried by a higher layer after backoff.
    KeyIsLocked {
        /// The start timestamp of the conflicting lock.
        lock_ts: u64,
    },
    /// A write record in the write index could not be decoded: index
    /// corruption, unrecoverable at this layer.
    BadFormatWrite,
    /// A write record promised a payload in the value store, but the value
    /// store has no entry for it: data corruption, unrecoverable at this
    /// layer.
    DefaultNotFound,
}

} // verus!
