use transposition_table::counters::Counters;
use transposition_table::entry::Entry;
use transposition_table::seqlock::{
    group_of, groups_for, ReadAction, ReadEvent, Reader, ENTRIES_PER_LOCK,
};
use transposition_table::table::TranspositionTable;
use transposition_table::window::{
    find_hit, find_victim, plan_store, replaces, tag_of, Scan, ScanAction, WritePlan,
};

#[derive(Clone, Copy, Debug, Default, PartialEq)]
struct Rec {
    key: u64,
    depth: u8,
    live: bool,
}

fn rec(key: u64, depth: u8) -> Rec {
    Rec { key, depth, live: true }
}

impl Entry for Rec {
    fn hash(&self) -> u64 {
        self.key
    }

    fn valid(&self) -> bool {
        self.live
    }

    fn better_than(&self, rhs: &Self) -> bool {
        self.depth > rhs.depth
    }

    fn width() -> usize {
        10
    }

    fn encode(&self, out: &mut Vec<u8>) {
        out.extend_from_slice(&self.key.to_le_bytes());
        out.push(self.depth);
        out.push(self.live as u8);
    }

    fn decode(bytes: &[u8]) -> Self {
        let mut key = [0u8; 8];
        key.copy_from_slice(&bytes[0..8]);
        Rec { key: u64::from_le_bytes(key), depth: bytes[8], live: bytes[9] != 0 }
    }
}

/// Drives a scan over two plain arrays, as a reader of shared memory would
/// drive it over that memory.
fn drive(tags: &[u8], slots: &[Rec], ways: usize, h: u64) -> (Option<usize>, usize, usize) {
    let mut scan = Scan::start(h, slots.len(), ways);
    let mut tags_read = 0;
    let mut records_read = 0;
    loop {
        match scan.action() {
            ScanAction::ReadTag { slot } => {
                tags_read += 1;
                scan.on_tag(tags[slot]);
            },
            ScanAction::ReadRecord { slot } => {
                records_read += 1;
                let hit = scan.on_record(&slots[slot]);
                assert_eq!(hit, matches!(scan.action(), ScanAction::Hit { .. }));
            },
            ScanAction::Hit { slot } => return (Some(slot), tags_read, records_read),
            ScanAction::Miss => return (None, tags_read, records_read),
        }
    }
}

#[test]
fn the_tag_is_the_low_byte() {
    assert_eq!(tag_of(0), 0);
    assert_eq!(tag_of(5), 5);
    assert_eq!(tag_of(0x1234), 0x34);
    assert_eq!(tag_of(u64::MAX), 0xff);
    assert_eq!(tag_of(0xffff_ffff_ffff_ff00), 0);
}

#[test]
fn a_scan_reads_records_only_behind_fitting_tags() {
    let mut slots = [Rec::default(); 8];
    let mut tags = [0u8; 8];
    // Window of 10 in a table of 8: slots 2, 3, 4, 5.
    slots[2] = rec(2, 1);
    tags[2] = 2;
    slots[3] = rec(266, 1);
    tags[3] = 10;
    slots[4] = rec(10, 1);
    tags[4] = 10;
    let (found, tags_read, records_read) = drive(&tags, &slots, 4, 10);
    assert_eq!(found, Some(4));
    assert_eq!(tags_read, 3);
    assert_eq!(records_read, 2);
    assert_eq!(find_hit(&tags, &slots, 4, 10), Some(4));

    let (found, tags_read, records_read) = drive(&tags, &slots, 4, 18);
    assert_eq!(found, None);
    assert_eq!(tags_read, 4);
    assert_eq!(records_read, 0);
    assert_eq!(find_hit(&tags, &slots, 4, 18), None);
}

#[test]
fn a_scan_of_no_probes_misses_at_once() {
    let mut scan = Scan::start(7, 0, 0);
    assert_eq!(scan.action(), ScanAction::Miss);
    scan = Scan::start(7, 5, 0);
    assert_eq!(scan.action(), ScanAction::Miss);
    scan = Scan::start(7, 5, 1);
    assert_eq!(scan.action(), ScanAction::ReadTag { slot: 2 });
    scan.on_tag(8);
    assert_eq!(scan.action(), ScanAction::Miss);
}

#[test]
fn a_scan_turns_down_an_invalid_record_behind_a_fitting_tag() {
    let mut scan = Scan::start(7, 5, 2);
    assert_eq!(scan.action(), ScanAction::ReadTag { slot: 2 });
    scan.on_tag(7);
    assert_eq!(scan.action(), ScanAction::ReadRecord { slot: 2 });
    assert!(!scan.on_record(&Rec { key: 7, depth: 1, live: false }));
    assert_eq!(scan.action(), ScanAction::ReadTag { slot: 3 });
    scan.on_tag(7);
    assert!(!scan.on_record(&rec(12, 1)));
    assert_eq!(scan.action(), ScanAction::Miss);
}

#[test]
fn a_driven_scan_agrees_with_the_table() {
    let mut t: TranspositionTable<Rec> = TranspositionTable::with_entries(37, 3);
    let mut h: u64 = 99;
    let mut keys = Vec::new();
    for round in 0..120u64 {
        h = h.wrapping_mul(6364136223846793005).wrapping_add(1442695040888963407);
        keys.push(h);
        t.store(&rec(h, (round % 4) as u8));
    }
    let mut answers = Vec::new();
    for k in &keys {
        answers.push(t.lookup(*k));
    }
    let (tags, slots) = t.into_parts();
    for (k, answer) in keys.iter().zip(answers) {
        let (found, _, _) = drive(&tags, &slots, 3, *k);
        assert_eq!(found.map(|i| slots[i]), answer);
        assert_eq!(find_hit(&tags, &slots, 3, *k), found);
    }
}

#[test]
fn the_victim_is_the_first_free_slot_or_the_least_valuable() {
    let mut slots = [Rec::default(); 8];
    // Window of 2, three probes: slots 2, 3, 4.
    assert_eq!(find_victim(&slots, 3, &rec(2, 1)), 2);
    slots[2] = rec(10, 5);
    assert_eq!(find_victim(&slots, 3, &rec(2, 1)), 3);
    slots[3] = rec(18, 2);
    slots[4] = rec(2, 9);
    // Slot 4 holds the same signature.
    assert_eq!(find_victim(&slots, 3, &rec(2, 1)), 4);
    slots[4] = rec(26, 3);
    // No slot is free: depth 5 gives way to depth 2, which keeps against 3.
    assert_eq!(find_victim(&slots, 3, &rec(2, 1)), 3);
    assert_eq!(find_victim(&slots, 1, &rec(2, 1)), 2);
}

#[test]
fn a_record_replaces_an_empty_slot_or_a_worse_record() {
    assert!(replaces(&rec(1, 0), &Rec::default()));
    assert!(replaces(&rec(1, 0), &Rec { key: 1, depth: 200, live: false }));
    assert!(replaces(&rec(1, 3), &rec(9, 2)));
    assert!(!replaces(&rec(1, 3), &rec(9, 3)));
    assert!(!replaces(&rec(1, 3), &rec(9, 4)));
}

#[test]
fn a_plan_names_the_slot_and_the_tag() {
    let mut slots = [Rec::default(); 8];
    slots[2] = rec(10, 5);
    slots[3] = rec(18, 2);
    assert_eq!(
        plan_store(&slots, 2, &rec(0x1fa, 3)),
        Some(WritePlan { slot: 3, tag: 0xfa })
    );
    assert_eq!(plan_store(&slots, 2, &rec(0x1fa, 2)), None);
    assert_eq!(
        plan_store(&slots, 3, &rec(0x1fa, 1)),
        Some(WritePlan { slot: 4, tag: 0xfa })
    );
}

#[test]
fn sixteen_neighbours_share_a_counter() {
    assert_eq!(ENTRIES_PER_LOCK, 16);
    assert_eq!(group_of(0), 0);
    assert_eq!(group_of(15), 0);
    assert_eq!(group_of(16), 1);
    assert_eq!(group_of(1023), 63);
    assert_eq!(group_of(usize::MAX), usize::MAX / 16);
    assert_eq!(groups_for(0), 0);
    assert_eq!(groups_for(1), 1);
    assert_eq!(groups_for(16), 1);
    assert_eq!(groups_for(17), 2);
    assert_eq!(groups_for(1024), 64);
    assert_eq!(groups_for(usize::MAX), usize::MAX / 16 + 1);
    for len in 1..100usize {
        assert_eq!(group_of(len - 1) + 1, groups_for(len));
    }
}

#[test]
fn a_read_of_a_quiet_slot_is_accepted() {
    let (state, action) = Reader::begin();
    assert_eq!(state, Reader::Arming);
    assert_eq!(action, ReadAction::Load { after_yield: false });
    let (state, action) = state.step(ReadEvent::Counter { value: 6 });
    assert_eq!(state, Reader::Reading { seq: 6 });
    assert_eq!(action, ReadAction::Copy);
    let (state, action) = state.step(ReadEvent::Copied);
    assert_eq!(state, Reader::Checking { seq: 6 });
    assert_eq!(action, ReadAction::Recheck);
    let (state, action) = state.step(ReadEvent::Counter { value: 6 });
    assert_eq!(state, Reader::Done { seq: 6 });
    assert_eq!(action, ReadAction::Accept);
    let (state, action) = state.step(ReadEvent::Copied);
    assert_eq!(state, Reader::Done { seq: 6 });
    assert_eq!(action, ReadAction::Accept);
}

#[test]
fn a_reader_gives_way_to_a_writer_at_work() {
    let (state, _) = Reader::begin();
    let (state, action) = state.step(ReadEvent::Counter { value: 7 });
    assert_eq!(state, Reader::Arming);
    assert_eq!(action, ReadAction::Load { after_yield: true });
    let (state, action) = state.step(ReadEvent::Counter { value: u32::MAX });
    assert_eq!(state, Reader::Arming);
    assert_eq!(action, ReadAction::Load { after_yield: true });
    let (state, action) = state.step(ReadEvent::Counter { value: 0 });
    assert_eq!(state, Reader::Reading { seq: 0 });
    assert_eq!(action, ReadAction::Copy);
}

#[test]
fn a_copy_that_a_writer_crossed_is_thrown_away() {
    let state = Reader::Checking { seq: 4 };
    for other in [5u32, 6, 3, 0, u32::MAX] {
        let (next, action) = state.step(ReadEvent::Counter { value: other });
        assert_eq!(next, Reader::Arming);
        assert_eq!(action, ReadAction::Load { after_yield: false });
    }
}

#[test]
fn an_event_out_of_turn_starts_the_read_over() {
    let restart = (Reader::Arming, ReadAction::Load { after_yield: false });
    assert_eq!(Reader::Arming.step(ReadEvent::Copied), restart);
    assert_eq!(Reader::Reading { seq: 2 }.step(ReadEvent::Counter { value: 2 }), restart);
    assert_eq!(Reader::Checking { seq: 2 }.step(ReadEvent::Copied), restart);
}

#[test]
fn counters_start_even_and_are_odd_during_a_write() {
    let c = Counters::for_table(40);
    assert_eq!(c.len(), 40);
    // Slots 3 and 5 share the counter of group 0; slot 16 is in group 1.
    assert_eq!(c.observe(3, Reader::Arming), (Reader::Reading { seq: 0 }, ReadAction::Copy));
    c.begin_write(3);
    let give_way = (Reader::Arming, ReadAction::Load { after_yield: true });
    assert_eq!(c.observe(3, Reader::Arming), give_way);
    assert_eq!(c.observe(5, Reader::Arming), give_way);
    assert_eq!(c.observe(16, Reader::Arming), (Reader::Reading { seq: 0 }, ReadAction::Copy));
    c.end_write(3);
    assert_eq!(c.observe(5, Reader::Arming), (Reader::Reading { seq: 2 }, ReadAction::Copy));
    assert_eq!(c.observe(39, Reader::Arming), (Reader::Reading { seq: 0 }, ReadAction::Copy));
}

#[test]
fn a_copy_taken_across_a_store_does_not_stand() {
    let c = Counters::for_table(16);
    let (reader, action) = Reader::begin();
    assert_eq!(action, ReadAction::Load { after_yield: false });
    let (reader, action) = c.observe(9, reader);
    assert_eq!(action, ReadAction::Copy);
    // A writer stores into the group while the reader copies.
    c.begin_write(2);
    let (reader, action) = reader.step(ReadEvent::Copied);
    assert_eq!(action, ReadAction::Recheck);
    c.end_write(2);
    let (reader, action) = c.observe(9, reader);
    assert_eq!(reader, Reader::Arming);
    assert_eq!(action, ReadAction::Load { after_yield: false });
    // The next try meets no writer and stands.
    let (reader, _) = c.observe(9, reader);
    let (reader, _) = reader.step(ReadEvent::Copied);
    assert_eq!(c.observe(9, reader), (Reader::Done { seq: 2 }, ReadAction::Accept));
}

#[test]
fn a_table_of_no_slots_has_no_counters() {
    let c = Counters::for_table(0);
    assert_eq!(c.len(), 0);
    let one = Counters::for_table(1);
    assert_eq!(one.observe(0, Reader::Arming), (Reader::Reading { seq: 0 }, ReadAction::Copy));
}
