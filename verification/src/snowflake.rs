//! Snowflake-style message id issuance: 63-bit ids laid out as
//! 41 bits of milliseconds since a custom epoch, 10 bits of worker id and a
//! 12-bit per-process sequence. Ids issued by one generator are strictly
//! increasing; when the sequence would wrap within one millisecond the
//! generator moves to the next millisecond instead of repeating a timestamp.

use vstd::prelude::*;

verus! {

/// Milliseconds since the Unix epoch of the custom epoch
/// (2025-01-01T00:00:00Z).
pub const EPOCH_MS: u64 = 1_735_689_600_000;

/// Largest timestamp (ms since the custom epoch) that fits in 41 bits.
pub const MAX_TIMESTAMP: u64 = 0x1_FFFF_FFFF_FF;

pub const WORKER_MASK: u16 = 0x3FF;

pub const SEQUENCE_MAX: u16 = 0xFFF;

/// The numeric value of an id built from a timestamp, worker id and sequence:
/// the timestamp in the high 41 bits, the worker in the next 10, the sequence
/// in the low 12.
pub open spec fn id_value(timestamp: u64, worker: u16, seq: u16) -> int {
    timestamp * 0x400000 + worker * 0x1000 + seq
}

pub struct SnowflakeGenerator {
    pub worker_id: u16,
    /// Timestamp (ms since the custom epoch) used by the last issued id.
    pub last_ms: u64,
    /// Sequence used by the last issued id.
    pub sequence: u16,
    /// Whether an id was issued yet (the first call never compares against a
    /// previous id).
    pub issued: bool,
}

impl SnowflakeGenerator {
    pub open spec fn wf(&self) -> bool {
        &&& self.worker_id <= WORKER_MASK
        &&& self.sequence <= SEQUENCE_MAX
        &&& self.last_ms <= MAX_TIMESTAMP
    }

    /// The value of the most recently issued id.
    pub open spec fn last_id(&self) -> int {
        id_value(self.last_ms, self.worker_id, self.sequence)
    }

    pub open spec fn has_issued(&self) -> bool {
        self.issued
    }

    /// The generator has timestamps left: its last timestamp is below the
    /// 41-bit cap, so one more id can always be issued.
    pub open spec fn not_exhausted(&self) -> bool {
        self.last_ms < MAX_TIMESTAMP
    }

    /// A fresh generator; the worker id is masked to 10 bits, the sequence
    /// and timestamp start at zero.
    pub fn new(worker_id: u16) -> (r: Self)
        ensures
            r.wf(),
            !r.has_issued(),
            r.not_exhausted(),
            r.worker_id == worker_id & WORKER_MASK,
            r.sequence == 0,
            r.last_ms == 0,
    {
        proof {
            assert(worker_id & 0x3FF <= 0x3FF) by (bit_vector);
        }
        SnowflakeGenerator { worker_id: worker_id & WORKER_MASK, last_ms: 0, sequence: 0, issued: false }
    }

    /// Issue the next id. `now_ms` is the current clock reading in
    /// milliseconds since the Unix epoch; the caller obtains it from the
    /// system clock. The id is strictly greater than every id issued before,
    /// whatever the clock reads: a reading at or before the last issued
    /// timestamp reuses that timestamp and advances the sequence, and a
    /// sequence about to wrap moves to the next millisecond.
    pub fn next_id(&mut self, now_ms: u64) -> (id: i64)
        requires
            old(self).wf(),
            old(self).not_exhausted(),
            now_ms < EPOCH_MS + MAX_TIMESTAMP,
        ensures
            final(self).wf(),
            final(self).has_issued(),
            final(self).worker_id == old(self).worker_id,
            id == final(self).last_id(),
            0 < id < 0x8000_0000_0000_0000u64,
            old(self).has_issued() ==> id > old(self).last_id(),
            (old(self).last_ms + 1 < MAX_TIMESTAMP && now_ms + 1 < EPOCH_MS + MAX_TIMESTAMP)
                ==> final(self).not_exhausted(),
    {
        let elapsed: u64 = if now_ms > EPOCH_MS {
            now_ms - EPOCH_MS
        } else {
            0
        };
        if !self.issued {
            self.last_ms = if elapsed > 0 {
                elapsed
            } else {
                1
            };
            self.sequence = 0;
            self.issued = true;
        } else if elapsed > self.last_ms {
            self.last_ms = elapsed;
            self.sequence = 0;
        } else if self.sequence < SEQUENCE_MAX {
            self.sequence = self.sequence + 1;
        } else {
            // The sequence would wrap within this millisecond: move to the
            // next one rather than repeat a (timestamp, sequence) pair.
            self.last_ms = self.last_ms + 1;
            self.sequence = 0;
        }
        let id_u: u64 = self.last_ms * 0x400000 + (self.worker_id as u64) * 0x1000 + (self.sequence as u64);
        id_u as i64
    }
}

} // verus!
