//! The table for one thread.

use vstd::prelude::*;
use vstd::layout::{layout_for_type_is_valid, size_of};
use crate::entry::Entry;
use crate::laws::{lemma_lookup_holds, lemma_store_is_local, lemma_store_then_lookup};
use crate::snapshot::{LoadError, parse, read_snapshot, snapshot_bytes, write_snapshot};
use crate::stats::{Op, Stats, Tally};
use crate::window::{TableModel, find_hit, holds, plan_store, spec_tag, tag_of};

verus! {

/// The memory budget, in bytes, of a table made without naming one.
pub const DEFAULT_TABLE_SIZE: usize = 0x4000_0000;

/// The tag that stands beside a record nobody has stored: the tag of its
/// signature where the record is valid, and zero otherwise.
pub open spec fn blank_tag<E: Entry>(e: E) -> u8 {
    if e.spec_valid() {
        spec_tag(e.spec_hash())
    } else {
        0
    }
}

/// The number of slots that a budget of `bytes` bytes pays for: each slot
/// takes one tag byte and the memory of one record.
pub open spec fn slots_for<E>(bytes: usize) -> int {
    bytes as int / (1 + size_of::<E>() as int)
}

/// A fixed-capacity cache of search records, found by their 64-bit signature.
/// A signature is looked for, and stored, in a window of `ways` slots only.
pub struct TranspositionTable<E: Entry + Default + Copy> {
    tags: Vec<u8>,
    slots: Vec<E>,
    stats: Stats,
    ways: usize,
}

impl<E: Entry + Default + Copy> View for TranspositionTable<E> {
    type V = TableModel<E>;

    closed spec fn view(&self) -> TableModel<E> {
        TableModel { tags: self.tags@, slots: self.slots@, ways: self.ways as nat }
    }
}

impl<E: Entry + Default + Copy> TranspositionTable<E> {
    /// The counters of the work done on this table.
    pub closed spec fn spec_stats(&self) -> Stats {
        self.stats
    }

    /// The two arrays have the same length, and no more hits were counted than
    /// lookups.
    pub open spec fn wf(&self) -> bool {
        &&& self@.wf()
        &&& self.spec_stats()@.sound()
    }

    /// A table of the default memory budget.
    pub fn new(ways: usize) -> (t: Self)
        ensures
            t.wf(),
            t@.len() == slots_for::<E>(DEFAULT_TABLE_SIZE),
            t@.ways == ways,
            t@.consistent(),
            t.spec_stats()@ == Tally::zero(),
            forall|i: int|
                0 <= i < t@.len() ==> call_ensures(E::default, (), #[trigger] t@.slots[i])
                    && t@.tags[i] == blank_tag(t@.slots[i]),
    {
        Self::with_memory(DEFAULT_TABLE_SIZE, ways)
    }

    /// A table of as many slots as `bytes` bytes of memory pay for.
    pub fn with_memory(bytes: usize, ways: usize) -> (t: Self)
        ensures
            t.wf(),
            t@.len() == slots_for::<E>(bytes),
            t@.ways == ways,
            t@.consistent(),
            t.spec_stats()@ == Tally::zero(),
            forall|i: int|
                0 <= i < t@.len() ==> call_ensures(E::default, (), #[trigger] t@.slots[i])
                    && t@.tags[i] == blank_tag(t@.slots[i]),
    {
        layout_for_type_is_valid::<E>();
        let footprint = 1 + core::mem::size_of::<E>();
        Self::with_entries(bytes / footprint, ways)
    }

    /// A table of `len` slots, each holding a default record beside its tag.
    pub fn with_entries(len: usize, ways: usize) -> (t: Self)
        ensures
            t.wf(),
            t@.len() == len,
            t@.ways == ways,
            t@.consistent(),
            t.spec_stats()@ == Tally::zero(),
            forall|i: int|
                0 <= i < len ==> call_ensures(E::default, (), #[trigger] t@.slots[i])
                    && t@.tags[i] == blank_tag(t@.slots[i]),
    {
        let mut tags: Vec<u8> = Vec::new();
        let mut slots: Vec<E> = Vec::new();
        let mut i: usize = 0;
        while i < len
            invariant
                i <= len,
                tags@.len() == i,
                slots@.len() == i,
                forall|k: int|
                    0 <= k < i ==> call_ensures(E::default, (), #[trigger] slots@[k]) && tags@[k]
                        == blank_tag(slots@[k]),
            decreases len - i,
        {
            let blank = E::default();
            let tag = if blank.valid() {
                tag_of(blank.hash())
            } else {
                0u8
            };
            tags.push(tag);
            slots.push(blank);
            i = i + 1;
        }
        TranspositionTable { tags, slots, stats: Stats::default(), ways }
    }

    /// Looks for the record of signature `h` in the window of `h`, and counts
    /// the lookup and the hit. What is found is a copy of a valid record of
    /// that signature; the table itself stays as it is.
    pub fn lookup(&mut self, h: u64) -> (found: Option<E>)
        requires
            old(self).wf(),
            old(self)@.ways > 0 ==> old(self)@.len() > 0,
            old(self).spec_stats()@.lookups < usize::MAX,
        ensures
            found == old(self)@.lookup(h),
            found matches Some(e) ==> holds(e, h),
            final(self)@ == old(self)@,
            final(self).spec_stats()@ == old(self).spec_stats()@.after(
                Op::Lookup { hit: found is Some },
            ),
            final(self).wf(),
    {
        proof {
            lemma_lookup_holds(self@, h);
        }
        let slot = find_hit(self.tags.as_slice(), self.slots.as_slice(), self.ways, h);
        match slot {
            Some(i) => {
                self.stats.count_lookup(true);
                Some(self.slots[i])
            },
            None => {
                self.stats.count_lookup(false);
                None
            },
        }
    }

    /// Offers `ent` to the table. The record competes for one slot of its
    /// window and is written there, beside its tag, when the slot is empty or
    /// when `ent` is better than the record in it; else nothing changes. A
    /// record that was taken is what the next lookup of its signature returns.
    pub fn store(&mut self, ent: &E) -> (taken: bool)
        requires
            old(self).wf(),
            old(self)@.ways > 0,
            old(self)@.len() > 0,
            ent.spec_valid(),
            old(self).spec_stats()@.stores < usize::MAX,
        ensures
            taken == old(self)@.accepts(*ent),
            final(self)@ == old(self)@.store(*ent),
            final(self).spec_stats()@ == old(self).spec_stats()@.after(
                Op::Store { accepted: taken },
            ),
            final(self).wf(),
            taken ==> final(self)@.lookup(ent.spec_hash()) == Some(*ent),
            old(self)@.consistent() ==> final(self)@.consistent(),
    {
        proof {
            lemma_store_is_local(self@, *ent);
            if self@.accepts(*ent) {
                lemma_store_then_lookup(self@, *ent);
            }
        }
        let taken = match plan_store(self.slots.as_slice(), self.ways, ent) {
            Some(plan) => {
                self.tags.set(plan.slot, plan.tag);
                self.slots.set(plan.slot, *ent);
                true
            },
            None => false,
        };
        self.stats.count_store(taken);
        assert(self@ =~= old(self)@.store(*ent));
        taken
    }

    /// The counters of the work done on this table.
    pub fn stats(&self) -> (s: Stats)
        ensures
            s == self.spec_stats(),
    {
        self.stats
    }

    /// Appends a snapshot of the table to `w`: the header, the tags, the
    /// records. Read back, the snapshot gives the same tags and records.
    pub fn dump(&self, w: &mut Vec<u8>)
        requires
            self.wf(),
        ensures
            final(w)@ == old(w)@ + snapshot_bytes(self@.tags, self@.slots),
            parse::<E>(snapshot_bytes(self@.tags, self@.slots)) == Ok::<
                (Seq<u8>, Seq<E>),
                LoadError,
            >((self@.tags, self@.slots)),
    {
        write_snapshot(self.tags.as_slice(), self.slots.as_slice(), w);
    }

    /// Restores a table of associativity `ways` from the snapshot at the start
    /// of `r`. The counters start from zero.
    pub fn from_reader(r: &[u8], ways: usize) -> (loaded: Result<Self, LoadError>)
        ensures
            match loaded {
                Ok(t) => {
                    &&& parse::<E>(r@) == Ok::<(Seq<u8>, Seq<E>), LoadError>(
                        (t@.tags, t@.slots),
                    )
                    &&& t@.ways == ways
                    &&& t.wf()
                    &&& t.spec_stats()@ == Tally::zero()
                },
                Err(e) => parse::<E>(r@) == Err::<(Seq<u8>, Seq<E>), LoadError>(e),
            },
    {
        match read_snapshot::<E>(r) {
            Ok((tags, slots)) => Ok(TranspositionTable { tags, slots, stats: Stats::default(), ways }),
            Err(e) => Err(e),
        }
    }

    /// Gives up the table for its two arrays: the tags and the records.
    pub fn into_parts(self) -> (parts: (Vec<u8>, Vec<E>))
        ensures
            parts.0@ == self@.tags,
            parts.1@ == self@.slots,
    {
        (self.tags, self.slots)
    }
}

} // verus!
