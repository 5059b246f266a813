//! The optimistic read of one slot: which counter guards it, and how a
//! reader decides whether its copy stands.

use vstd::prelude::*;

verus! {

/// The number of neighbouring slots that share one sequence counter.
pub const ENTRIES_PER_LOCK: usize = 16;

/// The group of a slot: slots `0..16` form group 0, slots `16..32` group 1,
/// and so on.
pub open spec fn spec_group_of(slot: int) -> int {
    slot / (ENTRIES_PER_LOCK as int)
}

/// The number of groups of a table of `len` slots: the least number that
/// gives every slot a group.
pub open spec fn spec_groups_for(len: int) -> int {
    (len + ENTRIES_PER_LOCK - 1) / (ENTRIES_PER_LOCK as int)
}

/// The counter that guards `slot`.
pub fn group_of(slot: usize) -> (g: usize)
    ensures
        g == spec_group_of(slot as int),
{
    slot / ENTRIES_PER_LOCK
}

/// The number of counters that a table of `len` slots needs.
pub fn groups_for(len: usize) -> (n: usize)
    ensures
        n == spec_groups_for(len as int),
        forall|slot: int| 0 <= slot < len ==> 0 <= #[trigger] spec_group_of(slot) < n,
        len > 0 ==> spec_group_of(len - 1) == n - 1,
{
    if len % ENTRIES_PER_LOCK == 0 {
        len / ENTRIES_PER_LOCK
    } else {
        len / ENTRIES_PER_LOCK + 1
    }
}

/// Where a reader stands in the optimistic read of one slot.
#[derive(Clone, Copy, Debug, PartialEq, Eq, Structural)]
pub enum Reader {
    /// It waits for the value of the slot's counter.
    Arming,
    /// The counter read `seq`, which is even; it waits for the copy of the
    /// record.
    Reading { seq: u32 },
    /// The copy is taken; it waits for the value of the counter once more.
    Checking { seq: u32 },
    /// The copy stands: the counter read `seq` before and after it.
    Done { seq: u32 },
}

/// What came back from the memory.
#[derive(Clone, Copy, Debug, PartialEq, Eq, Structural)]
pub enum ReadEvent {
    /// The counter was loaded and read `value`.
    Counter { value: u32 },
    /// The record was copied.
    Copied,
}

/// What the reader is to do next.
#[derive(Clone, Copy, Debug, PartialEq, Eq, Structural)]
pub enum ReadAction {
    /// Load the counter and hand its value in, after giving way to other
    /// threads if `after_yield` says so.
    Load { after_yield: bool },
    /// Copy the record and say so.
    Copy,
    /// Load the counter again, with nothing moved before the copy, and hand
    /// its value in.
    Recheck,
    /// The copy is safe to use.
    Accept,
}

impl Reader {
    /// A state in which a counter value is held only if it is even.
    pub open spec fn wf(self) -> bool {
        match self {
            Reader::Arming => true,
            Reader::Reading { seq } => seq % 2 == 0,
            Reader::Checking { seq } => seq % 2 == 0,
            Reader::Done { seq } => seq % 2 == 0,
        }
    }

    /// The next state and what to do, given what came back.
    ///
    /// An odd counter means that a writer is at work in the group: the reader
    /// gives way and starts over. A counter that differs after the copy means
    /// that the copy may be torn: the reader starts over. An event that was
    /// not asked for starts the read over too.
    pub open spec fn spec_step(self, event: ReadEvent) -> (Reader, ReadAction) {
        match (self, event) {
            (Reader::Arming, ReadEvent::Counter { value }) => if value % 2 == 1 {
                (Reader::Arming, ReadAction::Load { after_yield: true })
            } else {
                (Reader::Reading { seq: value }, ReadAction::Copy)
            },
            (Reader::Reading { seq }, ReadEvent::Copied) => (
                Reader::Checking { seq },
                ReadAction::Recheck,
            ),
            (Reader::Checking { seq }, ReadEvent::Counter { value }) => if value == seq {
                (Reader::Done { seq }, ReadAction::Accept)
            } else {
                (Reader::Arming, ReadAction::Load { after_yield: false })
            },
            (Reader::Done { seq }, _) => (Reader::Done { seq }, ReadAction::Accept),
            _ => (Reader::Arming, ReadAction::Load { after_yield: false }),
        }
    }

    /// Begins a read: the counter is to be loaded first.
    pub fn begin() -> (r: (Reader, ReadAction))
        ensures
            r == (Reader::Arming, ReadAction::Load { after_yield: false }),
    {
        (Reader::Arming, ReadAction::Load { after_yield: false })
    }

    /// Takes what came back from the memory and decides how the read goes on.
    /// The copy is accepted only on a counter that was even before it and the
    /// same after it.
    pub fn step(self, event: ReadEvent) -> (r: (Reader, ReadAction))
        ensures
            r == self.spec_step(event),
            self.wf() ==> r.0.wf(),
            r.1 == ReadAction::Accept <==> r.0 is Done,
            r.0 is Done && !(self is Done) ==> self is Checking && event == (ReadEvent::Counter {
                value: r.0->Done_seq,
            }) && self->Checking_seq == r.0->Done_seq,
    {
        match self {
            Reader::Arming => match event {
                ReadEvent::Counter { value } => {
                    if value % 2 == 1 {
                        (Reader::Arming, ReadAction::Load { after_yield: true })
                    } else {
                        (Reader::Reading { seq: value }, ReadAction::Copy)
                    }
                },
                ReadEvent::Copied => (Reader::Arming, ReadAction::Load { after_yield: false }),
            },
            Reader::Reading { seq } => match event {
                ReadEvent::Copied => (Reader::Checking { seq }, ReadAction::Recheck),
                ReadEvent::Counter { .. } => (
                    Reader::Arming,
                    ReadAction::Load { after_yield: false },
                ),
            },
            Reader::Checking { seq } => match event {
                ReadEvent::Counter { value } => {
                    if value == seq {
                        (Reader::Done { seq }, ReadAction::Accept)
                    } else {
                        (Reader::Arming, ReadAction::Load { after_yield: false })
                    }
                },
                ReadEvent::Copied => (Reader::Arming, ReadAction::Load { after_yield: false }),
            },
            Reader::Done { seq } => (Reader::Done { seq }, ReadAction::Accept),
        }
    }
}

} // verus!
