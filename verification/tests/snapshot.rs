use transposition_table::entry::Entry;
use transposition_table::snapshot::{
    decode_header, encode_header, payload_size, read_snapshot, snapshot_size, write_snapshot,
    LoadError, DUMPFILE_VERSION, HEADER_LEN,
};
use transposition_table::table::TranspositionTable;

#[derive(Clone, Copy, Debug, Default, PartialEq)]
struct Rec {
    key: u64,
    score: i32,
    depth: u8,
    live: bool,
}

fn rec(key: u64, depth: u8, score: i32) -> Rec {
    Rec { key, score, depth, live: true }
}

impl Entry for Rec {
    fn hash(&self) -> u64 {
        self.key
    }

    fn valid(&self) -> bool {
        self.live
    }

    fn better_than(&self, rhs: &Self) -> bool {
        self.depth > rhs.depth
    }

    fn width() -> usize {
        14
    }

    fn encode(&self, out: &mut Vec<u8>) {
        out.extend_from_slice(&self.key.to_le_bytes());
        out.extend_from_slice(&self.score.to_le_bytes());
        out.push(self.depth);
        out.push(self.live as u8);
    }

    fn decode(bytes: &[u8]) -> Self {
        let mut key = [0u8; 8];
        key.copy_from_slice(&bytes[0..8]);
        let mut score = [0u8; 4];
        score.copy_from_slice(&bytes[8..12]);
        Rec {
            key: u64::from_le_bytes(key),
            score: i32::from_le_bytes(score),
            depth: bytes[12],
            live: bytes[13] != 0,
        }
    }
}

fn filled(len: usize, ways: usize) -> (TranspositionTable<Rec>, Vec<u64>) {
    let mut t: TranspositionTable<Rec> = TranspositionTable::with_entries(len, ways);
    let mut keys = Vec::new();
    let mut h: u64 = 12345;
    for round in 0..(3 * len as u64) {
        h = h.wrapping_mul(6364136223846793005).wrapping_add(1442695040888963407);
        keys.push(h);
        t.store(&rec(h, (round % 5) as u8 + 1, round as i32 - 40));
    }
    (t, keys)
}

#[test]
fn a_snapshot_is_header_then_tags_then_records() {
    let mut t: TranspositionTable<Rec> = TranspositionTable::with_entries(2, 1);
    assert!(t.store(&rec(0x0102_0304_0506_0703, 9, -2)));
    let mut out: Vec<u8> = Vec::new();
    t.dump(&mut out);
    let expected: Vec<u8> = vec![
        // version 1, least significant byte first
        1, 0, 0, 0, 0, 0, 0, 0,
        // two entries
        2, 0, 0, 0, 0, 0, 0, 0,
        // tags: slot 0 is empty, slot 1 holds the record
        0, 0x03,
        // slot 0: the default record
        0, 0, 0, 0, 0, 0, 0, 0, 0, 0, 0, 0, 0, 0,
        // slot 1: key, score, depth, live
        0x03, 0x07, 0x06, 0x05, 0x04, 0x03, 0x02, 0x01, 0xfe, 0xff, 0xff, 0xff, 9, 1,
    ];
    assert_eq!(out, expected);
    assert_eq!(out.len(), HEADER_LEN + 2 * (1 + Rec::width()));
}

#[test]
fn dump_appends_to_what_is_there() {
    let t: TranspositionTable<Rec> = TranspositionTable::with_entries(1, 1);
    let mut out: Vec<u8> = vec![0xaa, 0xbb];
    t.dump(&mut out);
    assert_eq!(&out[0..2], &[0xaa, 0xbb]);
    assert_eq!(out.len(), 2 + HEADER_LEN + 1 + 14);
    assert_eq!(out[2], 1);
    assert_eq!(out[10], 1);
}

#[test]
fn a_restored_table_looks_up_like_the_one_dumped() {
    let (mut t, keys) = filled(61, 4);
    let mut bytes: Vec<u8> = Vec::new();
    t.dump(&mut bytes);
    let mut back: TranspositionTable<Rec> = TranspositionTable::from_reader(&bytes, 4).unwrap();
    assert_eq!(back.stats().lookups, 0);
    assert_eq!(back.stats().stores, 0);
    let mut hits = 0;
    for k in &keys {
        let was = t.lookup(*k);
        assert_eq!(back.lookup(*k), was);
        if was.is_some() {
            hits += 1;
        }
    }
    assert!(hits > 0);
    for k in 0..200u64 {
        assert_eq!(back.lookup(k), t.lookup(k));
    }
    let (tags, slots) = t.into_parts();
    let (tags_back, slots_back) = back.into_parts();
    assert_eq!(tags_back, tags);
    assert_eq!(slots_back, slots);
}

#[test]
fn a_restored_table_takes_stores_like_the_one_dumped() {
    let (mut t, _) = filled(16, 2);
    let mut bytes: Vec<u8> = Vec::new();
    t.dump(&mut bytes);
    let mut back: TranspositionTable<Rec> = TranspositionTable::from_reader(&bytes, 2).unwrap();
    for k in 0..64u64 {
        let r = rec(k, (k % 6) as u8 + 1, 0);
        assert_eq!(back.store(&r), t.store(&r));
    }
    assert_eq!(back.into_parts(), t.into_parts());
}

#[test]
fn another_version_is_refused_by_name() {
    let (t, _) = filled(4, 2);
    let mut bytes: Vec<u8> = Vec::new();
    t.dump(&mut bytes);
    bytes[0] = 2;
    let loaded: Result<TranspositionTable<Rec>, LoadError> =
        TranspositionTable::from_reader(&bytes, 2);
    match loaded {
        Err(e) => {
            assert_eq!(e, LoadError::VersionMismatch { expected: 1, observed: 2 });
            assert_eq!(e.message(), "dumpfile version mismatch: expected 1 got 2");
        },
        Ok(_) => panic!("version 2 was read"),
    }
    bytes[0] = 0;
    bytes[7] = 0x80;
    assert_eq!(
        decode_header(&bytes),
        Err(LoadError::VersionMismatch { expected: DUMPFILE_VERSION, observed: 1 << 63 })
    );
}

#[test]
fn a_mismatch_names_both_versions_in_decimal() {
    let e = LoadError::VersionMismatch { expected: 1, observed: 0 };
    assert_eq!(e.message(), "dumpfile version mismatch: expected 1 got 0");
    let e = LoadError::VersionMismatch { expected: 1, observed: u64::MAX };
    assert_eq!(e.message(), "dumpfile version mismatch: expected 1 got 18446744073709551615");
    let e = LoadError::VersionMismatch { expected: 10, observed: 907 };
    assert_eq!(e.message(), "dumpfile version mismatch: expected 10 got 907");
    assert_eq!(LoadError::Truncated.message(), "failed to fill whole buffer");
}

#[test]
fn a_short_header_is_truncated() {
    for n in 0..HEADER_LEN {
        let bytes = vec![1u8; n];
        assert_eq!(decode_header(&bytes), Err(LoadError::Truncated));
        let loaded: Result<TranspositionTable<Rec>, LoadError> =
            TranspositionTable::from_reader(&bytes, 2);
        assert!(matches!(loaded, Err(LoadError::Truncated)));
    }
}

#[test]
fn a_short_header_of_another_version_is_truncated_first() {
    let bytes = vec![9u8; 15];
    assert_eq!(decode_header(&bytes), Err(LoadError::Truncated));
}

#[test]
fn a_short_payload_is_truncated() {
    let (t, _) = filled(5, 2);
    let mut bytes: Vec<u8> = Vec::new();
    t.dump(&mut bytes);
    let whole = bytes.len();
    assert_eq!(whole, 16 + 5 * 15);
    for cut in [whole - 1, whole - 14, 16 + 5, 16 + 4, 16] {
        let loaded: Result<TranspositionTable<Rec>, LoadError> =
            TranspositionTable::from_reader(&bytes[..cut], 2);
        assert!(matches!(loaded, Err(LoadError::Truncated)));
    }
    assert!(TranspositionTable::<Rec>::from_reader(&bytes, 2).is_ok());
}

#[test]
fn a_count_that_no_memory_holds_is_truncated() {
    let mut bytes: Vec<u8> = Vec::new();
    encode_header(u64::MAX, &mut bytes);
    bytes.extend_from_slice(&[0u8; 64]);
    assert!(matches!(read_snapshot::<Rec>(&bytes), Err(LoadError::Truncated)));
    assert_eq!(payload_size::<Rec>(u64::MAX), None);
}

#[test]
fn bytes_after_the_payload_are_left_alone() {
    let (t, _) = filled(7, 3);
    let mut bytes: Vec<u8> = Vec::new();
    t.dump(&mut bytes);
    let exact = read_snapshot::<Rec>(&bytes).unwrap();
    bytes.extend_from_slice(&[0xee; 33]);
    let longer = read_snapshot::<Rec>(&bytes).unwrap();
    assert_eq!(longer, exact);
    assert_eq!(exact, t.into_parts());
}

#[test]
fn an_empty_table_dumps_to_a_bare_header() {
    let t: TranspositionTable<Rec> = TranspositionTable::with_entries(0, 4);
    let mut bytes: Vec<u8> = Vec::new();
    t.dump(&mut bytes);
    assert_eq!(bytes, vec![1, 0, 0, 0, 0, 0, 0, 0, 0, 0, 0, 0, 0, 0, 0, 0]);
    let back: TranspositionTable<Rec> = TranspositionTable::from_reader(&bytes, 4).unwrap();
    assert_eq!(back.into_parts().1.len(), 0);
}

#[test]
fn the_header_holds_version_and_count() {
    let mut bytes: Vec<u8> = vec![7];
    encode_header(0x0102_0304_0506_0708, &mut bytes);
    assert_eq!(bytes, vec![7, 1, 0, 0, 0, 0, 0, 0, 0, 8, 7, 6, 5, 4, 3, 2, 1]);
    assert_eq!(decode_header(&bytes[1..]), Ok(0x0102_0304_0506_0708));
    assert_eq!(payload_size::<Rec>(0), Some(0));
    assert_eq!(payload_size::<Rec>(3), Some(45));
}

#[test]
fn the_arrays_alone_can_be_written_and_read() {
    let slots = [rec(1, 1, 1), Rec::default(), rec(0xffff, 2, -7)];
    let tags = [1u8, 0, 0xff];
    let mut bytes: Vec<u8> = Vec::new();
    write_snapshot(&tags, &slots, &mut bytes);
    let (tags_back, slots_back) = read_snapshot::<Rec>(&bytes).unwrap();
    assert_eq!(tags_back, tags.to_vec());
    assert_eq!(slots_back, slots.to_vec());
}

#[test]
fn the_header_tells_how_long_the_snapshot_is() {
    let (t, _) = filled(9, 2);
    let mut bytes: Vec<u8> = Vec::new();
    t.dump(&mut bytes);
    assert_eq!(snapshot_size::<Rec>(&bytes[..16]), Ok(bytes.len()));
    assert_eq!(snapshot_size::<Rec>(&bytes), Ok(16 + 9 * 15));
    assert_eq!(snapshot_size::<Rec>(&bytes[..15]), Err(LoadError::Truncated));
    bytes[0] = 3;
    assert_eq!(
        snapshot_size::<Rec>(&bytes),
        Err(LoadError::VersionMismatch { expected: 1, observed: 3 })
    );
    let mut huge: Vec<u8> = Vec::new();
    encode_header(u64::MAX / 15, &mut huge);
    assert_eq!(snapshot_size::<Rec>(&huge), Err(LoadError::Truncated));
    let mut empty: Vec<u8> = Vec::new();
    encode_header(0, &mut empty);
    assert_eq!(snapshot_size::<Rec>(&empty), Ok(16));
}
