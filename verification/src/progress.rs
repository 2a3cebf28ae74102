//! The progress ledger: the three LSN watermarks a replication session
//! reports to the server. The ledger maintains
//! `last_applied <= last_flushed <= last_written`, and every operation moves
//! each watermark monotonically upward, so a status update never reports a
//! position behind one already reported.

use vstd::prelude::*;

verus! {

/// The three positions a standby status update carries.
#[derive(Debug, Clone, Copy, PartialEq, Eq, Structural)]
pub struct ProgressLedger {
    pub last_written: u64,
    pub last_flushed: u64,
    pub last_applied: u64,
}

impl ProgressLedger {
    /// The watermarks are ordered: applied never passes flushed, flushed
    /// never passes written.
    pub open spec fn wf(self) -> bool {
        self.last_applied <= self.last_flushed <= self.last_written
    }

    /// No watermark of `self` is behind the matching watermark of `prior`.
    pub open spec fn advanced_from(self, prior: ProgressLedger) -> bool {
        &&& prior.last_written <= self.last_written
        &&& prior.last_flushed <= self.last_flushed
        &&& prior.last_applied <= self.last_applied
    }

    /// A fresh ledger: every watermark starts at the stream start position.
    pub fn new(start_lsn: u64) -> (r: ProgressLedger)
        ensures
            r.wf(),
            r.last_written == start_lsn,
            r.last_flushed == start_lsn,
            r.last_applied == start_lsn,
    {
        ProgressLedger { last_written: start_lsn, last_flushed: start_lsn, last_applied: start_lsn }
    }

    /// Records that data up to `wal_end` has arrived: `last_written` becomes
    /// the larger of its old value and `wal_end`; nothing else moves.
    pub fn observe_write(&mut self, wal_end: u64)
        requires
            old(self).wf(),
        ensures
            final(self).wf(),
            final(self).advanced_from(*old(self)),
            final(self).last_written == (if old(self).last_written >= wal_end {
                old(self).last_written
            } else {
                wal_end
            }),
            final(self).last_flushed == old(self).last_flushed,
            final(self).last_applied == old(self).last_applied,
    {
        if wal_end > self.last_written {
            self.last_written = wal_end;
        }
    }

    /// Acknowledges application up to `lsn`: `last_applied` and
    /// `last_flushed` become the larger of their old values and `lsn`, and
    /// `last_written` is raised along where needed so the ordering holds.
    /// An `lsn` at or below `last_applied` changes nothing: the watermark
    /// never moves backward.
    pub fn update_applied_lsn(&mut self, lsn: u64)
        requires
            old(self).wf(),
        ensures
            final(self).wf(),
            final(self).advanced_from(*old(self)),
            final(self).last_applied == (if old(self).last_applied >= lsn {
                old(self).last_applied
            } else {
                lsn
            }),
            final(self).last_flushed == (if old(self).last_flushed >= lsn {
                old(self).last_flushed
            } else {
                lsn
            }),
            final(self).last_written == (if old(self).last_written >= lsn {
                old(self).last_written
            } else {
                lsn
            }),
    {
        if lsn > self.last_applied {
            self.last_applied = lsn;
        }
        if lsn > self.last_flushed {
            self.last_flushed = lsn;
        }
        if lsn > self.last_written {
            self.last_written = lsn;
        }
    }
}

/// Progress monotonicity: acknowledgements compose monotonically. Whatever
/// interleaving of acknowledged values a ledger sees, each step keeps every
/// watermark at or above where it was, so `last_applied` over the lifetime
/// of one client never decreases; and the order two acknowledgements arrive
/// in does not change where the ledger ends up.
pub proof fn lemma_progress_monotonic(l0: ProgressLedger, a: u64, b: u64)
    requires
        l0.wf(),
    ensures
        ({
            let l1 = spec_apply_ack(l0, a);
            let l2 = spec_apply_ack(l1, b);
            l1.wf() && l2.wf() && l1.advanced_from(l0) && l2.advanced_from(l1)
                && l2.advanced_from(l0) && l2 == spec_apply_ack(spec_apply_ack(l0, b), a)
        }),
{
}

/// The ledger after acknowledging `lsn`: the specification mirror of
/// `update_applied_lsn`.
pub open spec fn spec_apply_ack(l: ProgressLedger, lsn: u64) -> ProgressLedger {
    ProgressLedger {
        last_applied: if l.last_applied >= lsn {
            l.last_applied
        } else {
            lsn
        },
        last_flushed: if l.last_flushed >= lsn {
            l.last_flushed
        } else {
            lsn
        },
        last_written: if l.last_written >= lsn {
            l.last_written
        } else {
            lsn
        },
    }
}

} // verus!
