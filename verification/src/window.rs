//! The window of slots that belongs to a signature: how it is probed for a
//! lookup and how a store picks its victim in it.

use vstd::prelude::*;
use crate::entry::Entry;

verus! {

/// The tag of a signature: its low byte.
pub open spec fn spec_tag(h: u64) -> u8 {
    (h & 0xff) as u8
}

/// The slot that probe `j` of signature `h` falls on, in a table of `len` slots.
pub open spec fn probe_at(len: int, h: u64, j: int) -> int {
    (h + j) % len
}

/// Whether probe `j` of `h` falls on a slot that a record of signature `h` may
/// take without a contest: an empty one, or one that holds the same signature.
pub open spec fn free_at<E: Entry>(slots: Seq<E>, h: u64, j: int) -> bool {
    let occupant = slots[probe_at(slots.len() as int, h, j)];
    !occupant.spec_valid() || occupant.spec_hash() == h
}

/// Probe `j` is the first of the window that is free for `h`.
pub open spec fn first_free<E: Entry>(slots: Seq<E>, ways: nat, h: u64, j: int) -> bool {
    &&& 0 <= j < ways
    &&& free_at(slots, h, j)
    &&& forall|k: int| 0 <= k < j ==> !free_at(slots, h, k)
}

/// The least valuable slot among probes `0..=j` of `h`: going through the
/// probes in order, the slot kept so far gives way to the next one whenever its
/// record is better than the next one's.
pub open spec fn worst_in<E: Entry>(slots: Seq<E>, h: u64, j: int) -> int
    decreases j,
{
    let len = slots.len() as int;
    if j <= 0 {
        probe_at(len, h, 0)
    } else {
        let kept = worst_in(slots, h, j - 1);
        let next = probe_at(len, h, j);
        if slots[kept].spec_better_than(&slots[next]) {
            next
        } else {
            kept
        }
    }
}

/// The slot that a record of signature `h` competes for: the first free probe
/// of its window, or else the least valuable slot of the whole window.
pub open spec fn victim_in<E: Entry>(slots: Seq<E>, ways: nat, h: u64) -> int {
    if exists|j: int| first_free(slots, ways, h, j) {
        probe_at(slots.len() as int, h, choose|j: int| first_free(slots, ways, h, j))
    } else {
        worst_in(slots, h, ways - 1)
    }
}

/// Whether `e` is the record looked for under `h`: valid, and of that
/// signature in full.
pub open spec fn holds<E: Entry>(e: E, h: u64) -> bool {
    e.spec_valid() && e.spec_hash() == h
}

/// Whether `e` takes the place of `occupant`.
pub open spec fn displaces<E: Entry>(e: E, occupant: E) -> bool {
    !occupant.spec_valid() || e.spec_better_than(&occupant)
}

/// The two arrays of a table and its associativity, as mathematical values.
#[verifier::ext_equal]
pub struct TableModel<E> {
    /// One byte per slot: the tag of the record stored there.
    pub tags: Seq<u8>,
    /// One record per slot.
    pub slots: Seq<E>,
    /// How many slots are probed for one signature.
    pub ways: nat,
}

impl<E: Entry> TableModel<E> {
    /// Both arrays have one element per slot.
    pub open spec fn wf(self) -> bool {
        self.tags.len() == self.slots.len()
    }

    /// The number of slots.
    pub open spec fn len(self) -> nat {
        self.slots.len()
    }

    /// A table that lookups and stores can work on: it has a slot to probe.
    pub open spec fn usable(self) -> bool {
        self.wf() && self.slots.len() > 0
    }

    /// The slot that probe `j` of `h` falls on.
    pub open spec fn at(self, h: u64, j: int) -> int {
        probe_at(self.slots.len() as int, h, j)
    }

    /// Probe `j` of `h` falls on a slot that holds the record of `h`: the tag
    /// fits, the record is valid and its full signature is `h`.
    pub open spec fn hit(self, h: u64, j: int) -> bool {
        let i = self.at(h, j);
        self.tags[i] == spec_tag(h) && holds(self.slots[i], h)
    }

    /// Probe `j` is the first of the window that holds the record of `h`.
    pub open spec fn first_hit(self, h: u64, j: int) -> bool {
        &&& 0 <= j < self.ways
        &&& self.hit(h, j)
        &&& forall|k: int| 0 <= k < j ==> !self.hit(h, k)
    }

    /// The slot in which a lookup of `h` finds its record, if it finds one.
    pub open spec fn lookup_slot(self, h: u64) -> Option<int> {
        if exists|j: int| self.first_hit(h, j) {
            Some(self.at(h, choose|j: int| self.first_hit(h, j)))
        } else {
            None
        }
    }

    /// What a lookup of `h` returns.
    pub open spec fn lookup(self, h: u64) -> Option<E> {
        match self.lookup_slot(h) {
            Some(i) => Some(self.slots[i]),
            None => None,
        }
    }

    /// The slot that a record of signature `h` competes for.
    pub open spec fn victim(self, h: u64) -> int {
        victim_in(self.slots, self.ways, h)
    }

    /// Whether a store of `e` is taken.
    pub open spec fn accepts(self, e: E) -> bool {
        displaces(e, self.slots[self.victim(e.spec_hash())])
    }

    /// The table with `e` and its tag written to slot `i`.
    pub open spec fn write(self, i: int, e: E) -> Self {
        TableModel {
            tags: self.tags.update(i, spec_tag(e.spec_hash())),
            slots: self.slots.update(i, e),
            ways: self.ways,
        }
    }

    /// The table after a store of `e`.
    pub open spec fn store(self, e: E) -> Self {
        if self.accepts(e) {
            self.write(self.victim(e.spec_hash()), e)
        } else {
            self
        }
    }

    /// Every valid record has its tag beside it.
    pub open spec fn consistent(self) -> bool {
        forall|i: int|
            0 <= i < self.slots.len() && (#[trigger] self.slots[i]).spec_valid() ==> self.tags[i]
                == spec_tag(self.slots[i].spec_hash())
    }
}

/// The model of two slices taken as the arrays of a table.
pub open spec fn model_of<E: Entry>(tags: &[u8], slots: &[E], ways: usize) -> TableModel<E> {
    TableModel { tags: tags@, slots: slots@, ways: ways as nat }
}

/// A probe falls inside the table.
pub proof fn lemma_probe_in_range(len: int, h: u64, j: int)
    requires
        len > 0,
        j >= 0,
    ensures
        0 <= probe_at(len, h, j) < len,
{
    vstd::arithmetic::div_mod::lemma_mod_bound(h + j, len);
}

/// The low byte of a signature.
pub fn tag_of(h: u64) -> (t: u8)
    ensures
        t == spec_tag(h),
{
    (h & 0xff) as u8
}

/// The slot that probe `j` of `h` falls on.
pub fn probe(h: u64, j: usize, len: usize) -> (i: usize)
    requires
        len > 0,
    ensures
        i == probe_at(len as int, h, j as int),
        i < len,
{
    proof {
        lemma_probe_in_range(len as int, h, j as int);
    }
    let wide: u128 = (h as u128 + j as u128) % (len as u128);
    wide as usize
}

/// What a scan of a window waits for, or how it ended.
#[derive(Clone, Copy, Debug, PartialEq, Eq, Structural)]
pub enum Phase {
    /// The tag of the current probe is to be read.
    Tag,
    /// The tag fitted: the record of the current probe is to be read.
    Record,
    /// The record of the current probe is the one looked for.
    Hit,
    /// Every probe was turned down.
    Miss,
}

/// What a scan asks of whoever holds the memory.
#[derive(Clone, Copy, Debug, PartialEq, Eq, Structural)]
pub enum ScanAction {
    /// Read the tag of `slot` and hand it to `on_tag`.
    ReadTag { slot: usize },
    /// Read the record of `slot` and hand it to `on_record`.
    ReadRecord { slot: usize },
    /// The lookup is over: the record last handed in, read from `slot`, is it.
    Hit { slot: usize },
    /// The lookup is over: the window does not hold the record.
    Miss,
}

/// A lookup of one signature in progress: it goes through the window probe by
/// probe and decides, from each tag and each record handed to it, how to go on.
/// It never touches the memory itself, so the one who drives it may read a
/// plain array or memory that other threads write.
#[derive(Clone, Copy, Debug)]
pub struct Scan {
    h: u64,
    len: usize,
    ways: usize,
    j: usize,
    phase: Phase,
}

impl Scan {
    /// The signature looked for.
    pub closed spec fn key(&self) -> u64 {
        self.h
    }

    /// The number of slots of the table.
    pub closed spec fn len(&self) -> nat {
        self.len as nat
    }

    /// The number of probes of a window.
    pub closed spec fn ways(&self) -> nat {
        self.ways as nat
    }

    /// The number of probes that were turned down so far; the current probe,
    /// while there is one.
    pub closed spec fn turned_down(&self) -> nat {
        self.j as nat
    }

    /// What the scan waits for, or how it ended.
    pub closed spec fn phase(&self) -> Phase {
        self.phase
    }

    /// The slot of the current probe.
    pub open spec fn slot(&self) -> int {
        probe_at(self.len() as int, self.key(), self.turned_down() as int)
    }

    /// A scan that has ended in a miss has turned down the whole window; any
    /// other is at a probe of the window, in a table with a slot to probe.
    pub open spec fn wf(&self) -> bool {
        if self.phase() == Phase::Miss {
            self.turned_down() == self.ways()
        } else {
            self.turned_down() < self.ways() && self.len() > 0
        }
    }

    /// The scan after the current probe was turned down: at the next probe,
    /// or over when that was the last.
    pub open spec fn moved_on(&self, next: &Scan) -> bool {
        &&& next.key() == self.key()
        &&& next.len() == self.len()
        &&& next.ways() == self.ways()
        &&& next.turned_down() == self.turned_down() + 1
        &&& next.phase() == if self.turned_down() + 1 < self.ways() {
            Phase::Tag
        } else {
            Phase::Miss
        }
    }

    /// The scan at the same probe, in phase `phase`.
    pub open spec fn stayed(&self, next: &Scan, phase: Phase) -> bool {
        &&& next.key() == self.key()
        &&& next.len() == self.len()
        &&& next.ways() == self.ways()
        &&& next.turned_down() == self.turned_down()
        &&& next.phase() == phase
    }

    /// Begins a lookup of `h` in a table of `len` slots and `ways` probes.
    pub fn start(h: u64, len: usize, ways: usize) -> (scan: Scan)
        requires
            ways > 0 ==> len > 0,
        ensures
            scan.wf(),
            scan.key() == h,
            scan.len() == len,
            scan.ways() == ways,
            scan.turned_down() == 0,
            scan.phase() == if ways > 0 {
                Phase::Tag
            } else {
                Phase::Miss
            },
    {
        let phase = if ways > 0 {
            Phase::Tag
        } else {
            Phase::Miss
        };
        Scan { h, len, ways, j: 0, phase }
    }

    /// What is to be done next.
    pub fn action(&self) -> (a: ScanAction)
        requires
            self.wf(),
        ensures
            match a {
                ScanAction::ReadTag { slot } => self.phase() == Phase::Tag && slot == self.slot(),
                ScanAction::ReadRecord { slot } => self.phase() == Phase::Record && slot
                    == self.slot(),
                ScanAction::Hit { slot } => self.phase() == Phase::Hit && slot == self.slot(),
                ScanAction::Miss => self.phase() == Phase::Miss,
            },
            self.phase() != Phase::Miss ==> 0 <= self.slot() < self.len(),
    {
        match self.phase {
            Phase::Tag => ScanAction::ReadTag { slot: probe(self.h, self.j, self.len) },
            Phase::Record => ScanAction::ReadRecord { slot: probe(self.h, self.j, self.len) },
            Phase::Hit => ScanAction::Hit { slot: probe(self.h, self.j, self.len) },
            Phase::Miss => ScanAction::Miss,
        }
    }

    fn move_on(&mut self)
        requires
            old(self).wf(),
            old(self).phase() != Phase::Miss,
        ensures
            final(self).wf(),
            old(self).moved_on(final(self)),
    {
        self.j = self.j + 1;
        self.phase = if self.j < self.ways {
            Phase::Tag
        } else {
            Phase::Miss
        };
    }

    /// Takes the tag read from the current slot. A tag that fits the signature
    /// sends the scan on to the record; any other turns the probe down.
    pub fn on_tag(&mut self, tag: u8)
        requires
            old(self).wf(),
            old(self).phase() == Phase::Tag,
        ensures
            final(self).wf(),
            if tag == spec_tag(old(self).key()) {
                old(self).stayed(final(self), Phase::Record)
            } else {
                old(self).moved_on(final(self))
            },
    {
        if tag == tag_of(self.h) {
            self.phase = Phase::Record;
        } else {
            self.move_on();
        }
    }

    /// Takes the record read from the current slot, and says whether it is
    /// the one looked for. A record that is invalid or of another signature
    /// turns the probe down: a fitting tag proves nothing.
    pub fn on_record<E: Entry>(&mut self, e: &E) -> (hit: bool)
        requires
            old(self).wf(),
            old(self).phase() == Phase::Record,
        ensures
            final(self).wf(),
            hit == holds(*e, old(self).key()),
            if hit {
                old(self).stayed(final(self), Phase::Hit)
            } else {
                old(self).moved_on(final(self))
            },
    {
        if e.valid() && e.hash() == self.h {
            self.phase = Phase::Hit;
            true
        } else {
            self.move_on();
            false
        }
    }
}

/// Scans the window of `h` for its record: the first probed slot whose tag
/// fits and whose record is valid and has signature `h`.
pub fn find_hit<E: Entry>(tags: &[u8], slots: &[E], ways: usize, h: u64) -> (found: Option<usize>)
    requires
        tags@.len() == slots@.len(),
        ways > 0 ==> slots@.len() > 0,
    ensures
        match found {
            Some(i) => i < slots@.len() && model_of(tags, slots, ways).lookup_slot(h) == Some(
                i as int,
            ),
            None => model_of(tags, slots, ways).lookup_slot(h) is None,
        },
{
    let ghost m = model_of(tags, slots, ways);
    let mut scan = Scan::start(h, slots.len(), ways);
    loop
        invariant
            scan.wf(),
            scan.key() == h,
            scan.len() == slots@.len(),
            scan.ways() == ways,
            tags@.len() == slots@.len(),
            m == model_of(tags, slots, ways),
            scan.phase() != Phase::Hit,
            scan.phase() == Phase::Record ==> tags@[scan.slot()] == spec_tag(h),
            forall|k: int| 0 <= k < scan.turned_down() ==> !m.hit(h, k),
        decreases 2 * (scan.ways() - scan.turned_down()) + if scan.phase() == Phase::Tag {
            1nat
        } else {
            0nat
        },
    {
        match scan.action() {
            ScanAction::ReadTag { slot } => {
                scan.on_tag(tags[slot]);
            },
            ScanAction::ReadRecord { slot } => {
                let ghost j = scan.turned_down() as int;
                if scan.on_record(&slots[slot]) {
                    proof {
                        assert(m.first_hit(h, j));
                        let c = choose|c: int| m.first_hit(h, c);
                        assert(m.hit(h, c) && m.hit(h, j));
                        assert(c == j);
                    }
                    return Some(slot);
                }
            },
            ScanAction::Hit { slot } => {
                return Some(slot);
            },
            ScanAction::Miss => {
                proof {
                    assert forall|c: int| !m.first_hit(h, c) by {
                        if m.first_hit(h, c) {
                            assert(m.hit(h, c));
                        }
                    }
                }
                return None;
            },
        }
    }
}

/// Picks the slot that a store of `ent` competes for.
pub fn find_victim<E: Entry>(slots: &[E], ways: usize, ent: &E) -> (v: usize)
    requires
        ways > 0,
        slots@.len() > 0,
    ensures
        v == victim_in(slots@, ways as nat, ent.spec_hash()),
        v < slots@.len(),
{
    let ghost h = ent.spec_hash();
    let len = slots.len();
    let key = ent.hash();
    let mut worst: usize = probe(key, 0, len);
    let mut j: usize = 0;
    while j < ways
        invariant
            j <= ways,
            ways > 0,
            len == slots@.len(),
            len > 0,
            key == h,
            h == ent.spec_hash(),
            worst < len,
            j > 0 ==> worst == worst_in(slots@, h, j - 1),
            forall|k: int| 0 <= k < j ==> !free_at(slots@, h, k),
        decreases ways - j,
    {
        let i = probe(key, j, len);
        if !slots[i].valid() || slots[i].hash() == key {
            proof {
                assert(first_free(slots@, ways as nat, h, j as int));
                let c = choose|c: int| first_free(slots@, ways as nat, h, c);
                assert(free_at(slots@, h, c) && free_at(slots@, h, j as int));
                assert(c == j);
            }
            return i;
        }
        if j == 0 {
            worst = i;
        } else if slots[worst].better_than(&slots[i]) {
            worst = i;
        }
        j = j + 1;
    }
    proof {
        assert forall|c: int| !first_free(slots@, ways as nat, h, c) by {
            if first_free(slots@, ways as nat, h, c) {
                assert(free_at(slots@, h, c));
            }
        }
    }
    worst
}

/// Whether `ent` takes the place of `occupant`: it does when the slot is
/// empty or when `ent` is the better record.
pub fn replaces<E: Entry>(ent: &E, occupant: &E) -> (yes: bool)
    ensures
        yes == displaces(*ent, *occupant),
{
    !occupant.valid() || ent.better_than(occupant)
}

/// Where a store writes, and which tag goes beside the record.
#[derive(Clone, Copy, Debug, PartialEq, Eq, Structural)]
pub struct WritePlan {
    pub slot: usize,
    pub tag: u8,
}

/// Decides a store of `ent` against the records as they stand: where `ent`
/// goes if the table takes it, or `None` if the window already holds
/// something at least as good.
pub fn plan_store<E: Entry>(slots: &[E], ways: usize, ent: &E) -> (plan: Option<WritePlan>)
    requires
        ways > 0,
        slots@.len() > 0,
    ensures
        match plan {
            Some(p) => {
                &&& displaces(*ent, slots@[victim_in(slots@, ways as nat, ent.spec_hash())])
                &&& p.slot == victim_in(slots@, ways as nat, ent.spec_hash())
                &&& p.slot < slots@.len()
                &&& p.tag == spec_tag(ent.spec_hash())
            },
            None => !displaces(*ent, slots@[victim_in(slots@, ways as nat, ent.spec_hash())]),
        },
{
    let victim = find_victim(slots, ways, ent);
    if replaces(ent, &slots[victim]) {
        Some(WritePlan { slot: victim, tag: tag_of(ent.hash()) })
    } else {
        None
    }
}

} // verus!
