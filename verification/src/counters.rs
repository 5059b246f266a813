//! The sequence counters of a table shared between threads.

use std::sync::atomic::AtomicU32;
use std::sync::atomic::Ordering;
use vstd::prelude::*;
use crate::seqlock::{ReadAction, ReadEvent, Reader, group_of, groups_for, spec_groups_for};

verus! {

/// Keeps the writes that follow from moving before what came earlier. This is
/// `fence` of the standard library with release ordering; it returns nothing.
#[verifier::external_body]
fn release_fence() {
    std::sync::atomic::fence(Ordering::Release);
}

/// The sequence counters of a table shared between threads: one counter for
/// each group of neighbouring slots. A counter is odd while a writer is at
/// work in its group. Other threads change the counters at any time, so
/// nothing is known of a value but what is read from it.
pub struct Counters {
    cells: Vec<AtomicU32>,
    slots: usize,
}

impl Counters {
    /// The number of slots that the counters guard.
    pub closed spec fn slots(&self) -> int {
        self.slots as int
    }

    /// There is a counter for the group of every slot.
    pub closed spec fn wf(&self) -> bool {
        self.cells@.len() == spec_groups_for(self.slots as int)
    }

    /// Counters for a table of `len` slots, all at zero.
    pub fn for_table(len: usize) -> (c: Counters)
        ensures
            c.wf(),
            c.slots() == len,
    {
        let groups = groups_for(len);
        let mut cells: Vec<AtomicU32> = Vec::new();
        let mut g: usize = 0;
        while g < groups
            invariant
                g <= groups,
                cells@.len() == g,
            decreases groups - g,
        {
            cells.push(AtomicU32::new(0));
            g = g + 1;
        }
        Counters { cells, slots: len }
    }

    /// The number of slots that the counters guard.
    pub fn len(&self) -> (n: usize)
        ensures
            n == self.slots(),
    {
        self.slots
    }

    /// Loads the counter of `slot` for a reader that stands at `reader`, and
    /// lets the reader decide on the value: with acquire ordering before a
    /// copy, and with relaxed ordering to check a copy that was taken.
    pub fn observe(&self, slot: usize, reader: Reader) -> (next: (Reader, ReadAction))
        requires
            self.wf(),
            slot < self.slots(),
        ensures
            exists|value: u32| next == reader.spec_step(ReadEvent::Counter { value }),
            reader.wf() ==> next.0.wf(),
    {
        let cell = &self.cells[group_of(slot)];
        let value = match reader {
            Reader::Checking { .. } => cell.load(Ordering::Relaxed),
            _ => cell.load(Ordering::Acquire),
        };
        reader.step(ReadEvent::Counter { value })
    }

    /// Opens a write to `slot`: raises the counter of its group by one, to an
    /// odd value when writers take turns, before anything is written.
    pub fn begin_write(&self, slot: usize)
        requires
            self.wf(),
            slot < self.slots(),
    {
        let cell = &self.cells[group_of(slot)];
        cell.fetch_add(1, Ordering::Relaxed);
        release_fence();
    }

    /// Closes a write to `slot`: raises the counter of its group by one again,
    /// after everything is written.
    pub fn end_write(&self, slot: usize)
        requires
            self.wf(),
            slot < self.slots(),
    {
        let cell = &self.cells[group_of(slot)];
        cell.fetch_add(1, Ordering::Release);
    }
}

} // verus!
