//! Per-region read statistics.
//!
//! Every cursor operation and every processed version bumps a counter. The
//! counters saturate at their maximum instead of wrapping: they are
//! diagnostics, not logic, and must never make a read fail.

use vstd::prelude::*;

verus! {

/// A counter bumped by one, saturating at the maximum.
pub open spec fn sat_inc(x: u64) -> u64 {
    if x < u64::MAX {
        (x + 1) as u64
    } else {
        x
    }
}

/// Counters for one storage region.
#[derive(Clone, Copy, Debug, PartialEq, Eq, Structural)]
pub struct CfStatistics {
    /// Repositioning seeks issued against the region.
    pub seek: u64,
    /// Single forward steps taken in the region.
    pub next: u64,
    /// Point reads of an entry's key or value.
    pub get: u64,
    /// Entries whose content was actually interpreted by the read path.
    pub processed: u64,
}

impl CfStatistics {
    /// All counters are zero.
    pub open spec fn is_zero(self) -> bool {
        self.seek == 0 && self.next == 0 && self.get == 0 && self.processed == 0
    }

    /// Fresh zeroed counters.
    pub fn new() -> (r: CfStatistics)
        ensures
            r.is_zero(),
    {
        CfStatistics { seek: 0, next: 0, get: 0, processed: 0 }
    }

    /// Record one repositioning seek.
    pub fn inc_seek(&mut self)
        ensures
            *final(self) == (CfStatistics { seek: sat_inc(old(self).seek), ..*old(self) }),
    {
        if self.seek < u64::MAX {
            self.seek = self.seek + 1;
        }
    }

    /// Record one forward step.
    pub fn inc_next(&mut self)
        ensures
            *final(self) == (CfStatistics { next: sat_inc(old(self).next), ..*old(self) }),
    {
        if self.next < u64::MAX {
            self.next = self.next + 1;
        }
    }

    /// Record one point read.
    pub fn inc_get(&mut self)
        ensures
            *final(self) == (CfStatistics { get: sat_inc(old(self).get), ..*old(self) }),
    {
        if self.get < u64::MAX {
            self.get = self.get + 1;
        }
    }

    /// Record one interpreted entry.
    pub fn inc_processed(&mut self)
        ensures
            *final(self) == (CfStatistics { processed: sat_inc(old(self).processed), ..*old(self) }),
    {
        if self.processed < u64::MAX {
            self.processed = self.processed + 1;
        }
    }
}

impl Default for CfStatistics {
    /// Fresh zeroed counters.
    fn default() -> (r: CfStatistics)
        ensures
            r.is_zero(),
    {
        CfStatistics::new()
    }
}

/// The accumulator a reader owns: one set of counters per storage region.
#[derive(Clone, Copy, Debug, PartialEq, Eq, Structural)]
pub struct Statistics {
    /// Counters for the lock region.
    pub lock: CfStatistics,
    /// Counters for the write index.
    pub write: CfStatistics,
    /// Counters for the value store.
    pub data: CfStatistics,
}

impl Statistics {
    /// All counters of all regions are zero.
    pub open spec fn is_zero(self) -> bool {
        self.lock.is_zero() && self.write.is_zero() && self.data.is_zero()
    }

    /// A fresh zeroed accumulator.
    pub fn new() -> (r: Statistics)
        ensures
            r.is_zero(),
    {
        Statistics { lock: CfStatistics::new(), write: CfStatistics::new(), data: CfStatistics::new() }
    }
}

impl Default for Statistics {
    /// A fresh zeroed accumulator.
    fn default() -> (r: Statistics)
        ensures
            r.is_zero(),
    {
        Statistics::new()
    }
}

} // verus!
