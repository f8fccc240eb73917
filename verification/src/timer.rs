//! The repeating tick timer.
//!
//! The timer is an accumulate-and-threshold counter over milliseconds of
//! real time.  Each advance adds the elapsed time to the accumulator;
//! when the total reaches the fixed period the timer fires once and the
//! accumulator is cleared to zero, dropping any excess rather than
//! carrying it forward.

use vstd::prelude::*;

verus! {

/// Period of the simulation tick timer: one second.
pub const TICK_PERIOD_MS: u32 = 1000;

/// A repeating countdown over milliseconds, firing once each time the
/// accumulated time reaches the period.
#[derive(Clone, Copy, PartialEq, Eq, Structural, Debug)]
pub struct TickTimer {
    /// Milliseconds accumulated since the last firing.
    pub elapsed_ms: u32,
    /// The firing threshold in milliseconds.
    pub period_ms: u32,
}

impl TickTimer {
    /// The period is positive and the accumulator is strictly below it.
    pub open spec fn wf(self) -> bool {
        0 < self.period_ms && self.elapsed_ms < self.period_ms
    }

    /// Whether advancing by `delta_ms` makes the timer fire.
    pub open spec fn fires(self, delta_ms: u32) -> bool {
        self.elapsed_ms + delta_ms >= self.period_ms
    }

    /// The timer state after advancing by `delta_ms`: cleared to zero on
    /// a firing, otherwise accumulated.
    pub open spec fn spec_advance(self, delta_ms: u32) -> TickTimer {
        if self.fires(delta_ms) {
            TickTimer { elapsed_ms: 0, period_ms: self.period_ms }
        } else {
            TickTimer { elapsed_ms: (self.elapsed_ms + delta_ms) as u32, period_ms: self.period_ms }
        }
    }

    /// A fresh timer with the given period and an empty accumulator.
    pub fn new(period_ms: u32) -> (t: TickTimer)
        requires
            period_ms > 0,
        ensures
            t == (TickTimer { elapsed_ms: 0, period_ms }),
            t.wf(),
    {
        TickTimer { elapsed_ms: 0, period_ms }
    }

    /// Advances the timer by `delta_ms` milliseconds of real time and
    /// reports whether it fired.  On a firing the accumulator is reset
    /// to zero: time beyond the period is dropped, not carried forward.
    pub fn advance(&mut self, delta_ms: u32) -> (fired: bool)
        requires
            old(self).wf(),
        ensures
            final(self).wf(),
            fired == old(self).fires(delta_ms),
            *final(self) == old(self).spec_advance(delta_ms),
    {
        let total: u64 = self.elapsed_ms as u64 + delta_ms as u64;
        if total >= self.period_ms as u64 {
            self.elapsed_ms = 0;
            true
        } else {
            self.elapsed_ms = total as u32;
            false
        }
    }
}

/// Total of a sequence of advance amounts.
pub open spec fn total_of(deltas: Seq<u32>) -> int
    decreases deltas.len(),
{
    if deltas.len() == 0 {
        0
    } else {
        total_of(deltas.drop_last()) + deltas.last()
    }
}

/// The timer state after advancing through each amount in `deltas`, in
/// order.
pub open spec fn advanced_through(t: TickTimer, deltas: Seq<u32>) -> TickTimer
    decreases deltas.len(),
{
    if deltas.len() == 0 {
        t
    } else {
        advanced_through(t, deltas.drop_last()).spec_advance(deltas.last())
    }
}

/// Whether any advance in `deltas`, applied in order from `t`, fires.
pub open spec fn any_firing(t: TickTimer, deltas: Seq<u32>) -> bool
    decreases deltas.len(),
{
    if deltas.len() == 0 {
        false
    } else {
        any_firing(t, deltas.drop_last()) || advanced_through(t, deltas.drop_last()).fires(
            deltas.last(),
        )
    }
}

/// Law: as long as the accumulated time stays below the period, repeated
/// advances never fire, and the accumulator holds exactly the sum of the
/// amounts advanced so far.
pub proof fn lemma_subthreshold_never_fires(t: TickTimer, deltas: Seq<u32>)
    requires
        t.wf(),
        t.elapsed_ms + total_of(deltas) < t.period_ms,
    ensures
        !any_firing(t, deltas),
        advanced_through(t, deltas) == (TickTimer {
            elapsed_ms: (t.elapsed_ms + total_of(deltas)) as u32,
            period_ms: t.period_ms,
        }),
    decreases deltas.len(),
{
    if deltas.len() == 0 {
        assert(advanced_through(t, deltas) == t);
        assert(t == (TickTimer {
            elapsed_ms: (t.elapsed_ms + total_of(deltas)) as u32,
            period_ms: t.period_ms,
        }));
    } else {
        assert(total_of(deltas) == total_of(deltas.drop_last()) + deltas.last());
        lemma_total_of_nonneg(deltas.drop_last());
        lemma_subthreshold_never_fires(t, deltas.drop_last());
        let mid = advanced_through(t, deltas.drop_last());
        assert(!mid.fires(deltas.last()));
    }
}

/// The total of unsigned amounts is nonnegative.
pub proof fn lemma_total_of_nonneg(deltas: Seq<u32>)
    ensures
        total_of(deltas) >= 0,
    decreases deltas.len(),
{
    if deltas.len() > 0 {
        lemma_total_of_nonneg(deltas.drop_last());
    }
}

} // verus!
