//! Counters of lookups, hits and stores.

use vstd::prelude::*;

verus! {

/// One unit of work that the counters take note of.
pub enum Op {
    /// A lookup, and whether it found its record.
    Lookup { hit: bool },
    /// A store, and whether the table took the record.
    Store { accepted: bool },
}

/// The counters as unbounded numbers.
pub struct Tally {
    pub lookups: nat,
    pub hits: nat,
    pub stores: nat,
}

impl Tally {
    /// No work done yet.
    pub open spec fn zero() -> Tally {
        Tally { lookups: 0, hits: 0, stores: 0 }
    }

    /// Field-wise sum.
    pub open spec fn merge(self, other: Tally) -> Tally {
        Tally {
            lookups: self.lookups + other.lookups,
            hits: self.hits + other.hits,
            stores: self.stores + other.stores,
        }
    }

    /// The counters once `op` has been taken note of. A rejected store leaves
    /// them as they are.
    pub open spec fn after(self, op: Op) -> Tally {
        match op {
            Op::Lookup { hit } => Tally {
                lookups: self.lookups + 1,
                hits: if hit { self.hits + 1 } else { self.hits },
                stores: self.stores,
            },
            Op::Store { accepted } => Tally {
                lookups: self.lookups,
                hits: self.hits,
                stores: if accepted { self.stores + 1 } else { self.stores },
            },
        }
    }

    /// No more hits than lookups.
    pub open spec fn sound(self) -> bool {
        self.hits <= self.lookups
    }

    /// Every counter fits a machine word.
    pub open spec fn fits(self) -> bool {
        self.lookups <= usize::MAX && self.hits <= usize::MAX && self.stores <= usize::MAX
    }
}

/// The counters that a run of operations leaves behind, starting from zero.
pub open spec fn tally(ops: Seq<Op>) -> Tally
    decreases ops.len(),
{
    if ops.len() == 0 {
        Tally::zero()
    } else {
        tally(ops.drop_last()).after(ops.last())
    }
}

/// Counters of the work done through a table or through one handle onto it.
#[derive(Clone, Copy, Debug)]
pub struct Stats {
    pub lookups: usize,
    pub hits: usize,
    pub stores: usize,
}

impl View for Stats {
    type V = Tally;

    open spec fn view(&self) -> Tally {
        Tally { lookups: self.lookups as nat, hits: self.hits as nat, stores: self.stores as nat }
    }
}

impl Stats {
    /// Field-wise sum of two sets of counters.
    pub fn merge(&self, other: &Stats) -> (merged: Stats)
        requires
            self@.merge(other@).fits(),
        ensures
            merged@ == self@.merge(other@),
    {
        Stats {
            lookups: self.lookups + other.lookups,
            hits: self.hits + other.hits,
            stores: self.stores + other.stores,
        }
    }

    /// Takes note of one lookup.
    pub fn count_lookup(&mut self, hit: bool)
        requires
            old(self)@.after(Op::Lookup { hit }).fits(),
        ensures
            final(self)@ == old(self)@.after(Op::Lookup { hit }),
    {
        self.lookups = self.lookups + 1;
        if hit {
            self.hits = self.hits + 1;
        }
    }

    /// Takes note of one store and of whether the table took the record.
    pub fn count_store(&mut self, accepted: bool)
        requires
            old(self)@.after(Op::Store { accepted }).fits(),
        ensures
            final(self)@ == old(self)@.after(Op::Store { accepted }),
    {
        if accepted {
            self.stores = self.stores + 1;
        }
    }
}

impl Default for Stats {
    fn default() -> (zero: Stats)
        ensures
            zero@ == Tally::zero(),
    {
        Stats { lookups: 0, hits: 0, stores: 0 }
    }
}

/// Merging does not depend on the order of its two arguments.
pub proof fn lemma_merge_commutative(a: Tally, b: Tally)
    ensures
        a.merge(b) == b.merge(a),
{
}

/// Merging three sets of counters gives the same sums however they are paired.
pub proof fn lemma_merge_associative(a: Tally, b: Tally, c: Tally)
    ensures
        a.merge(b).merge(c) == a.merge(b.merge(c)),
{
}

/// Zero is neutral for merging.
pub proof fn lemma_merge_zero(a: Tally)
    ensures
        a.merge(Tally::zero()) == a,
        Tally::zero().merge(a) == a,
{
}

/// Counters gathered apart and then merged equal the counters of all the
/// operations gathered in one place.
pub proof fn lemma_tally_concat(a: Seq<Op>, b: Seq<Op>)
    ensures
        tally(a + b) == tally(a).merge(tally(b)),
    decreases b.len(),
{
    if b.len() == 0 {
        assert(a + b =~= a);
    } else {
        lemma_tally_concat(a, b.drop_last());
        assert((a + b).drop_last() =~= a + b.drop_last());
        assert((a + b).last() == b.last());
    }
}

/// Whatever the operations were, there are no more hits than lookups.
pub proof fn lemma_tally_sound(ops: Seq<Op>)
    ensures
        tally(ops).sound(),
    decreases ops.len(),
{
    if ops.len() > 0 {
        lemma_tally_sound(ops.drop_last());
    }
}

/// Taking note of an operation, and merging, keep hits within lookups.
pub proof fn lemma_sound_preserved(a: Tally, b: Tally, op: Op)
    requires
        a.sound(),
        b.sound(),
    ensures
        a.after(op).sound(),
        a.merge(b).sound(),
{
}

} // verus!
