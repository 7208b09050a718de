//! The append-only telemetry sink's bookkeeping: one record per sent or
//! received chunk, with a flush owed every `flush_every` records. The
//! actual line I/O lives outside; this tracks the cadence.
use vstd::prelude::*;

verus! {

/// Counts telemetry records and says when a periodic flush is due.
pub struct TelemetrySink {
    pub count: u64,
    pub flush_every: u64,
}

impl TelemetrySink {
    /// A flush cadence of zero would never be meaningful: the counter is
    /// compared modulo `flush_every`.
    pub open spec fn wf(self) -> bool {
        self.flush_every > 0
    }

    /// A sink that has recorded nothing and flushes every `flush_every`
    /// records.
    pub fn new(flush_every: u64) -> (s: TelemetrySink)
        requires
            flush_every > 0,
        ensures
            s == (TelemetrySink { count: 0u64, flush_every }),
            s.wf(),
    {
        TelemetrySink { count: 0, flush_every }
    }

    /// Counts one appended record; true exactly when this record makes
    /// the count a multiple of the cadence, so the caller owes a flush.
    pub fn record(&mut self) -> (flush: bool)
        requires
            old(self).wf(),
            old(self).count < u64::MAX,
        ensures
            *final(self) == (TelemetrySink { count: (old(self).count + 1) as u64, ..*old(self) }),
            flush == ((old(self).count + 1) % (old(self).flush_every as int) == 0),
            final(self).wf(),
    {
        self.count = self.count + 1;
        self.count % self.flush_every == 0
    }
}

} // verus!
