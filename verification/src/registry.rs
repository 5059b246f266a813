//! The bookkeeping of the handles onto a shared table.

use vstd::prelude::*;
use crate::stats::{Stats, Tally};

verus! {

/// The books that a shared table keeps on its handles: how many are open, and
/// the counters that the closed ones left behind.
#[derive(Clone, Copy, Debug)]
pub struct Registry {
    stats: Stats,
    live: usize,
}

impl Registry {
    /// The counters merged from the handles closed so far.
    pub closed spec fn spec_stats(&self) -> Stats {
        self.stats
    }

    /// The number of handles that are open.
    pub closed spec fn spec_live(&self) -> nat {
        self.live as nat
    }

    /// No handle was ever opened.
    pub fn new() -> (r: Registry)
        ensures
            r.spec_live() == 0,
            r.spec_stats()@ == Tally::zero(),
    {
        Registry { stats: Stats::default(), live: 0 }
    }

    /// Opens a handle: counts it, and gives it counters of its own that start
    /// from zero.
    pub fn open(&mut self) -> (fresh: Stats)
        requires
            old(self).spec_live() < usize::MAX,
        ensures
            final(self).spec_live() == old(self).spec_live() + 1,
            final(self).spec_stats() == old(self).spec_stats(),
            fresh@ == Tally::zero(),
    {
        self.live = self.live + 1;
        Stats::default()
    }

    /// Closes a handle: merges the counters it gathered into the shared ones
    /// and counts it out.
    pub fn close(&mut self, gathered: &Stats)
        requires
            old(self).spec_live() > 0,
            old(self).spec_stats()@.merge(gathered@).fits(),
        ensures
            final(self).spec_live() == old(self).spec_live() - 1,
            final(self).spec_stats()@ == old(self).spec_stats()@.merge(gathered@),
    {
        self.stats = self.stats.merge(gathered);
        self.live = self.live - 1;
    }

    /// The counters merged from the handles closed so far.
    pub fn stats(&self) -> (s: Stats)
        ensures
            s == self.spec_stats(),
    {
        self.stats
    }

    /// The number of handles that are open.
    pub fn live(&self) -> (n: usize)
        ensures
            n == self.spec_live(),
    {
        self.live
    }
}

} // verus!
