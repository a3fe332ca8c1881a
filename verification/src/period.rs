//! Mapping from block heights to reporting-period indices.
//!
//! Period boundaries are derived from the chain height alone, by integer
//! division with a fixed window size, so that every replica evaluating the
//! same state transition agrees on the active period without coordination.

use vstd::prelude::*;

verus! {

/// A reporting period index.
pub type Period = u64;

/// A block height supplied by the host.
pub type BlockNumber = u64;

/// Converts block heights into reporting-period indices and detects
/// rollover between periods.
pub struct PeriodWindowManager {
    /// Number of blocks per reporting period; always positive.
    pub window_size: u64,
}

impl PeriodWindowManager {
    /// A manager is well formed when its window is non-degenerate.
    pub open spec fn wf(self) -> bool {
        self.window_size > 0
    }

    /// The period that `height` falls in, for a window of `self.window_size`.
    pub open spec fn spec_period(self, height: BlockNumber) -> Period
        recommends
            self.wf(),
    {
        (height / self.window_size) as Period
    }

    pub fn new(window_size: u64) -> (r: PeriodWindowManager)
        requires
            window_size > 0,
        ensures
            r.wf(),
            r.window_size == window_size,
    {
        PeriodWindowManager { window_size }
    }

    /// The period index the given block height belongs to.
    pub fn current_period(&self, height: BlockNumber) -> (r: Period)
        requires
            self.wf(),
        ensures
            r == self.spec_period(height),
    {
        height / self.window_size
    }

    /// Whether the period active at `height` differs from `previous`.
    pub fn has_rolled_over(&self, previous: Period, height: BlockNumber) -> (r: bool)
        requires
            self.wf(),
        ensures
            r == (self.spec_period(height) != previous),
    {
        self.current_period(height) != previous
    }
}

/// The period index is a monotone function of the block height: observations
/// made at a later height are never attributed to an earlier period.
pub proof fn lemma_period_monotone(m: PeriodWindowManager, h1: BlockNumber, h2: BlockNumber)
    requires
        m.wf(),
        h1 <= h2,
    ensures
        m.spec_period(h1) <= m.spec_period(h2),
{
    vstd::arithmetic::div_mod::lemma_div_is_ordered(h1 as int, h2 as int, m.window_size as int);
}

} // verus!
