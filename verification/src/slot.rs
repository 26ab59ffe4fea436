use vstd::prelude::*;

use crate::error::ConsensusError;

verus! {

/// A discrete position of the slot clock: a (period, thread) pair for a
/// configured thread count `T`, with `thread` in `[0, T)`.
#[derive(Clone, Copy, PartialEq, Eq, Structural, Debug)]
pub struct Slot {
    pub period: u64,
    pub thread: u8,
}

impl Slot {
    /// A slot is well formed when its thread index lies under the
    /// configured thread count.
    pub open spec fn wf(self, thread_count: u8) -> bool {
        self.thread < thread_count
    }

    /// Position of the slot in the global slot order:
    /// `period * thread_count + thread`.
    pub open spec fn index(self, thread_count: u8) -> int {
        self.period * thread_count + self.thread
    }

    /// Strict slot order: by period, then by thread.
    pub open spec fn lt(self, other: Slot) -> bool {
        self.period < other.period
            || (self.period == other.period && self.thread < other.thread)
    }

    /// Successor slot: same period and the next thread, or the first
    /// thread of the next period after the last thread.
    pub open spec fn next_spec(self, thread_count: u8) -> Slot {
        if self.thread + 1 < thread_count {
            Slot { period: self.period, thread: (self.thread + 1) as u8 }
        } else {
            Slot { period: (self.period + 1) as u64, thread: 0 }
        }
    }

    /// Predecessor slot; meaningful for every slot but (0, 0).
    pub open spec fn prev_spec(self, thread_count: u8) -> Slot {
        if self.thread > 0 {
            Slot { period: self.period, thread: (self.thread - 1) as u8 }
        } else {
            Slot { period: (self.period - 1) as u64, thread: (thread_count - 1) as u8 }
        }
    }

    /// True exactly when the successor would wrap the period counter.
    pub open spec fn next_overflows(self, thread_count: u8) -> bool {
        self.thread + 1 >= thread_count && self.period == u64::MAX
    }

    pub fn new(period: u64, thread: u8) -> (s: Slot)
        ensures
            s == (Slot { period, thread }),
    {
        Slot { period, thread }
    }

    /// Successor of `self`; reports an overflow of the period counter.
    pub fn get_next_slot(self, thread_count: u8) -> (r: Result<Slot, ConsensusError>)
        requires
            thread_count >= 1,
        ensures
            match r {
                Ok(s) => !self.next_overflows(thread_count) && s == self.next_spec(thread_count),
                Err(e) => self.next_overflows(thread_count) && e == ConsensusError::SlotOverflowError,
            },
    {
        if self.thread < thread_count - 1 {
            Ok(Slot { period: self.period, thread: self.thread + 1 })
        } else if self.period == u64::MAX {
            Err(ConsensusError::SlotOverflowError)
        } else {
            Ok(Slot { period: self.period + 1, thread: 0 })
        }
    }

    /// Predecessor of `self`; `None` exactly at the genesis slot (0, 0).
    pub fn get_prev_slot(self, thread_count: u8) -> (r: Option<Slot>)
        requires
            thread_count >= 1,
        ensures
            match r {
                Some(s) => (self.period > 0 || self.thread > 0) && s == self.prev_spec(thread_count),
                None => self.period == 0 && self.thread == 0,
            },
    {
        if self.thread > 0 {
            Some(Slot { period: self.period, thread: self.thread - 1 })
        } else if self.period == 0 {
            None
        } else {
            Some(Slot { period: self.period - 1, thread: thread_count - 1 })
        }
    }

    /// Strict order test on slots.
    pub fn is_before(self, other: Slot) -> (r: bool)
        ensures
            r == self.lt(other),
    {
        self.period < other.period
            || (self.period == other.period && self.thread < other.thread)
    }
}

/// The successor of a well-formed slot sits exactly one place further in
/// the global slot order.
pub proof fn lemma_next_index(s: Slot, thread_count: u8)
    requires
        thread_count >= 1,
        s.wf(thread_count),
        !s.next_overflows(thread_count),
    ensures
        s.next_spec(thread_count).wf(thread_count),
        s.next_spec(thread_count).index(thread_count) == s.index(thread_count) + 1,
{
    if s.thread + 1 < thread_count {
        assert(s.next_spec(thread_count).index(thread_count) == s.index(thread_count) + 1);
    } else {
        assert(s.thread == thread_count - 1);
        assert((s.period + 1) * thread_count == s.period * thread_count + thread_count)
            by (nonlinear_arith);
    }
}

/// No well-formed slot sits past the slot with the largest period and
/// the last thread index.
pub proof fn lemma_index_max(s: Slot, thread_count: u8)
    requires
        thread_count >= 1,
        s.wf(thread_count),
    ensures
        s.index(thread_count) <= u64::MAX * (thread_count as int) + (thread_count - 1),
{
    assert(s.period * thread_count <= u64::MAX * (thread_count as int)) by (nonlinear_arith)
        requires s.period <= u64::MAX, thread_count >= 1;
}

/// Taking the predecessor and then the successor of any non-genesis slot
/// gives the slot back; the predecessor is undefined only at (0, 0).
pub proof fn lemma_prev_next_roundtrip(s: Slot, thread_count: u8)
    requires
        thread_count >= 1,
        s.wf(thread_count),
        s.period > 0 || s.thread > 0,
    ensures
        s.prev_spec(thread_count).next_spec(thread_count) == s,
{
}

/// The strict slot order agrees with the order of global slot indices on
/// well-formed slots.
pub proof fn lemma_lt_iff_index_lt(a: Slot, b: Slot, thread_count: u8)
    requires
        thread_count >= 1,
        a.wf(thread_count),
        b.wf(thread_count),
    ensures
        a.lt(b) <==> a.index(thread_count) < b.index(thread_count),
{
    if a.period < b.period {
        assert((a.period + 1) * thread_count <= b.period * thread_count) by (nonlinear_arith)
            requires a.period < b.period, thread_count >= 1;
        assert((a.period + 1) * thread_count == a.period * thread_count + thread_count)
            by (nonlinear_arith);
    }
    if a.index(thread_count) < b.index(thread_count) && !a.lt(b) {
        if a.period == b.period {
            assert(false);
        } else {
            assert(b.period < a.period);
            assert((b.period + 1) * thread_count <= a.period * thread_count) by (nonlinear_arith)
                requires b.period < a.period, thread_count >= 1;
            assert((b.period + 1) * thread_count == b.period * thread_count + thread_count)
                by (nonlinear_arith);
            assert(false);
        }
    }
}

} // verus!
