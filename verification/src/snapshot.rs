//! The binary snapshot of a table: a header, the tags, the records.

use vstd::prelude::*;
use vstd::bytes::{
    lemma_auto_spec_u64_to_from_le_bytes, spec_u64_from_le_bytes, spec_u64_to_le_bytes,
    u64_from_le_bytes, u64_to_le_bytes,
};
use vstd::slice::{slice_subrange, slice_to_vec};
use crate::entry::{Entry, round_trips};

verus! {

/// The version that this library writes, and the only one it reads.
pub const DUMPFILE_VERSION: u64 = 1;

/// The size of a snapshot's header: the version and the entry count, eight
/// bytes each, least significant byte first.
pub const HEADER_LEN: usize = 16;

/// Why a snapshot could not be read.
#[derive(Clone, Copy, Debug, PartialEq, Eq, Structural)]
pub enum LoadError {
    /// The bytes end before the header or the payload does.
    Truncated,
    /// The snapshot was written in another version of the format.
    VersionMismatch { expected: u64, observed: u64 },
}

/// The character that stands for the digit `d`.
pub open spec fn digit(d: nat) -> char {
    seq!['0', '1', '2', '3', '4', '5', '6', '7', '8', '9'][d as int]
}

/// The digits of `n` to base ten, without leading zeros.
pub open spec fn decimal(n: nat) -> Seq<char>
    decreases n,
{
    if n < 10 {
        seq![digit(n)]
    } else {
        decimal(n / 10).push(digit(n % 10))
    }
}

/// The words that name both versions of a mismatch.
pub open spec fn mismatch_text(expected: u64, observed: u64) -> Seq<char> {
    "dumpfile version mismatch: expected "@ + decimal(expected as nat) + " got "@ + decimal(
        observed as nat,
    )
}

/// Writes a version mismatch out. This is `format!` of the standard library,
/// taken on trust: it is held to put the two numbers, in decimal digits, into
/// the fixed words around them.
#[verifier::external_body]
fn render_mismatch(expected: u64, observed: u64) -> (text: String)
    ensures
        text@ == mismatch_text(expected, observed),
{
    format!("dumpfile version mismatch: expected {} got {}", expected, observed)
}

impl LoadError {
    /// The error in words.
    pub open spec fn spec_message(self) -> Seq<char> {
        match self {
            LoadError::Truncated => "failed to fill whole buffer"@,
            LoadError::VersionMismatch { expected, observed } => mismatch_text(expected, observed),
        }
    }

    /// The error in words. A mismatch names the version that was expected and
    /// the one that was found.
    pub fn message(&self) -> (text: String)
        ensures
            text@ == self.spec_message(),
    {
        match self {
            LoadError::Truncated => "failed to fill whole buffer".to_owned(),
            LoadError::VersionMismatch { expected, observed } => render_mismatch(
                *expected,
                *observed,
            ),
        }
    }
}

/// The encodings of `slots`, one after another.
pub open spec fn encode_all<E: Entry>(slots: Seq<E>) -> Seq<u8>
    decreases slots.len(),
{
    if slots.len() == 0 {
        Seq::empty()
    } else {
        encode_all(slots.drop_last()) + slots.last().spec_encode()
    }
}

/// The `n` records that `bytes` hold, each in its own run of the fixed width.
pub open spec fn decode_all<E: Entry>(bytes: Seq<u8>, n: nat) -> Seq<E> {
    Seq::new(
        n,
        |i: int| E::spec_decode(bytes.subrange(i * E::spec_width(), (i + 1) * E::spec_width())),
    )
}

/// The header of a snapshot of `entries` slots.
pub open spec fn header_bytes(entries: u64) -> Seq<u8> {
    spec_u64_to_le_bytes(DUMPFILE_VERSION) + spec_u64_to_le_bytes(entries)
}

/// A snapshot: the header, then one tag byte per slot, then one encoded record
/// per slot.
pub open spec fn snapshot_bytes<E: Entry>(tags: Seq<u8>, slots: Seq<E>) -> Seq<u8> {
    header_bytes(slots.len() as u64) + tags + encode_all(slots)
}

/// The number of bytes that follow the header of a snapshot of `entries` slots.
pub open spec fn payload_len<E: Entry>(entries: u64) -> int {
    entries * (1 + E::spec_width())
}

/// What the header of `bytes` says: the entry count, or why there is none.
pub open spec fn parse_header(bytes: Seq<u8>) -> Result<u64, LoadError> {
    if bytes.len() < HEADER_LEN {
        Err(LoadError::Truncated)
    } else {
        let version = spec_u64_from_le_bytes(bytes.subrange(0, 8));
        if version != DUMPFILE_VERSION {
            Err(LoadError::VersionMismatch { expected: DUMPFILE_VERSION, observed: version })
        } else {
            Ok(spec_u64_from_le_bytes(bytes.subrange(8, 16)))
        }
    }
}

/// The tags and the records that `bytes` hold, or why they hold none. Bytes
/// after the payload are not looked at.
pub open spec fn parse<E: Entry>(bytes: Seq<u8>) -> Result<(Seq<u8>, Seq<E>), LoadError> {
    match parse_header(bytes) {
        Err(e) => Err(e),
        Ok(entries) => {
            if bytes.len() - HEADER_LEN < payload_len::<E>(entries) {
                Err(LoadError::Truncated)
            } else {
                let tags_end = HEADER_LEN + entries;
                let end = HEADER_LEN + payload_len::<E>(entries);
                Ok(
                    (
                        bytes.subrange(HEADER_LEN as int, tags_end),
                        decode_all(bytes.subrange(tags_end, end), entries as nat),
                    ),
                )
            }
        },
    }
}

/// The encodings of records that round-trip lie one after another, each in
/// its own run of the fixed width.
pub proof fn lemma_encode_all_chunks<E: Entry>(slots: Seq<E>)
    requires
        forall|i: int| 0 <= i < slots.len() ==> round_trips(#[trigger] slots[i]),
    ensures
        encode_all(slots).len() == slots.len() * E::spec_width(),
        forall|i: int|
            0 <= i < slots.len() ==> #[trigger] encode_all(slots).subrange(
                i * E::spec_width(),
                (i + 1) * E::spec_width(),
            ) == slots[i].spec_encode(),
    decreases slots.len(),
{
    let w = E::spec_width() as int;
    let n = slots.len() as int;
    if n > 0 {
        let front = slots.drop_last();
        lemma_encode_all_chunks(front);
        assert(round_trips(slots[n - 1]));
        assert((n - 1) * w + w == n * w) by (nonlinear_arith);
        assert forall|i: int| 0 <= i < n implies #[trigger] encode_all(slots).subrange(
            i * w,
            (i + 1) * w,
        ) == slots[i].spec_encode() by {
            assert(0 <= i * w && (i + 1) * w == i * w + w && (i + 1) * w <= n * w)
                by (nonlinear_arith)
                requires
                    0 <= i < n,
                    w >= 0,
            ;
            if i < n - 1 {
                assert((i + 1) * w <= (n - 1) * w) by (nonlinear_arith)
                    requires
                        0 <= i < n - 1,
                        w >= 0,
                ;
                assert(front[i] == slots[i]);
                assert(encode_all(slots).subrange(i * w, (i + 1) * w) =~= encode_all(
                    front,
                ).subrange(i * w, (i + 1) * w));
            } else {
                assert(encode_all(slots).subrange(i * w, (i + 1) * w) =~= slots[i].spec_encode());
            }
        }
    }
}

/// Reading back what was written gives the same tags and the same records,
/// slot for slot, provided that each record's encoding round-trips.
pub proof fn lemma_parse_of_snapshot<E: Entry>(tags: Seq<u8>, slots: Seq<E>)
    requires
        tags.len() == slots.len(),
        slots.len() <= u64::MAX,
        forall|i: int| 0 <= i < slots.len() ==> round_trips(#[trigger] slots[i]),
    ensures
        parse::<E>(snapshot_bytes(tags, slots)) == Ok::<(Seq<u8>, Seq<E>), LoadError>(
            (tags, slots),
        ),
{
    lemma_parse_of_extended_snapshot(tags, slots, Seq::empty());
    assert(snapshot_bytes(tags, slots) + Seq::<u8>::empty() =~= snapshot_bytes(tags, slots));
}

/// Bytes that follow a snapshot do not change what is read back from it.
pub proof fn lemma_parse_of_extended_snapshot<E: Entry>(
    tags: Seq<u8>,
    slots: Seq<E>,
    rest: Seq<u8>,
)
    requires
        tags.len() == slots.len(),
        slots.len() <= u64::MAX,
        forall|i: int| 0 <= i < slots.len() ==> round_trips(#[trigger] slots[i]),
    ensures
        parse::<E>(snapshot_bytes(tags, slots) + rest) == Ok::<(Seq<u8>, Seq<E>), LoadError>(
            (tags, slots),
        ),
{
    let n = slots.len() as u64;
    let w = E::spec_width() as int;
    let bytes = snapshot_bytes(tags, slots) + rest;
    lemma_auto_spec_u64_to_from_le_bytes();
    lemma_encode_all_chunks(slots);
    assert(bytes.subrange(0, 8) =~= spec_u64_to_le_bytes(DUMPFILE_VERSION));
    assert(bytes.subrange(8, 16) =~= spec_u64_to_le_bytes(n));
    assert(parse_header(bytes) == Ok::<u64, LoadError>(n));
    assert(n * (1 + w) == n + n * w) by (nonlinear_arith);
    assert(payload_len::<E>(n) == n + n * w);
    let tags_end = HEADER_LEN + n;
    let end = HEADER_LEN + payload_len::<E>(n);
    assert(bytes.subrange(HEADER_LEN as int, tags_end) =~= tags);
    let body = bytes.subrange(tags_end, end);
    assert(body =~= encode_all(slots));
    assert(decode_all::<E>(body, n as nat) =~= slots) by {
        assert forall|i: int| 0 <= i < n implies decode_all::<E>(body, n as nat)[i]
            == slots[i] by {
            assert(encode_all(slots).subrange(i * w, (i + 1) * w) == slots[i].spec_encode());
            assert(round_trips(slots[i]));
        }
    }
}

/// Appends the header of a snapshot of `entries` slots.
pub fn encode_header(entries: u64, out: &mut Vec<u8>)
    ensures
        final(out)@ == old(out)@ + header_bytes(entries),
        parse_header(header_bytes(entries)) == Ok::<u64, LoadError>(entries),
{
    let mut version = u64_to_le_bytes(DUMPFILE_VERSION);
    let mut count = u64_to_le_bytes(entries);
    out.append(&mut version);
    out.append(&mut count);
    proof {
        lemma_auto_spec_u64_to_from_le_bytes();
        let h = header_bytes(entries);
        assert(h.subrange(0, 8) =~= spec_u64_to_le_bytes(DUMPFILE_VERSION));
        assert(h.subrange(8, 16) =~= spec_u64_to_le_bytes(entries));
        assert(final(out)@ =~= old(out)@ + header_bytes(entries));
    }
}

/// Reads the header at the start of `bytes`: checks the version and returns
/// the entry count.
pub fn decode_header(bytes: &[u8]) -> (r: Result<u64, LoadError>)
    ensures
        r == parse_header(bytes@),
{
    if bytes.len() < HEADER_LEN {
        return Err(LoadError::Truncated);
    }
    let version = u64_from_le_bytes(slice_subrange(bytes, 0, 8));
    if version != DUMPFILE_VERSION {
        return Err(LoadError::VersionMismatch { expected: DUMPFILE_VERSION, observed: version });
    }
    Ok(u64_from_le_bytes(slice_subrange(bytes, 8, 16)))
}

/// The number of bytes that follow the header of a snapshot of `entries`
/// slots, when a machine word can hold it.
pub fn payload_size<E: Entry>(entries: u64) -> (r: Option<usize>)
    ensures
        match r {
            Some(n) => n == payload_len::<E>(entries),
            None => payload_len::<E>(entries) > usize::MAX,
        },
{
    let per_slot: u128 = 1 + E::width() as u128;
    assert(entries * per_slot <= 0xffff_ffff_ffff_ffff * 0x1_0000_0000_0000_0000)
        by (nonlinear_arith)
        requires
            0 <= entries <= 0xffff_ffff_ffff_ffff,
            0 <= per_slot <= 0x1_0000_0000_0000_0000,
    ;
    let total: u128 = entries as u128 * per_slot;
    if total > usize::MAX as u128 {
        None
    } else {
        Some(total as usize)
    }
}

/// The length of the whole snapshot that begins with the header in `bytes`:
/// the header and the payload it announces. A snapshot too long for any
/// memory counts as truncated.
pub fn snapshot_size<E: Entry>(bytes: &[u8]) -> (r: Result<usize, LoadError>)
    ensures
        match (r, parse_header(bytes@)) {
            (Ok(n), Ok(entries)) => n == HEADER_LEN + payload_len::<E>(entries),
            (Err(e), Ok(entries)) => e == LoadError::Truncated && HEADER_LEN + payload_len::<E>(
                entries,
            ) > usize::MAX,
            (Err(e), Err(h)) => e == h,
            (Ok(_), Err(_)) => false,
        },
{
    let entries = match decode_header(bytes) {
        Ok(entries) => entries,
        Err(e) => {
            return Err(e);
        },
    };
    match payload_size::<E>(entries) {
        Some(payload) => {
            if payload <= usize::MAX - HEADER_LEN {
                Ok(HEADER_LEN + payload)
            } else {
                Err(LoadError::Truncated)
            }
        },
        None => Err(LoadError::Truncated),
    }
}

/// Appends a snapshot of the two arrays to `out`. What is written reads back
/// as the same tags and records.
pub fn write_snapshot<E: Entry>(tags: &[u8], slots: &[E], out: &mut Vec<u8>)
    requires
        tags@.len() == slots@.len(),
    ensures
        final(out)@ == old(out)@ + snapshot_bytes(tags@, slots@),
        parse::<E>(snapshot_bytes(tags@, slots@)) == Ok::<(Seq<u8>, Seq<E>), LoadError>(
            (tags@, slots@),
        ),
{
    let n = slots.len();
    encode_header(n as u64, out);
    let mut index = slice_to_vec(tags);
    out.append(&mut index);
    let ghost start = old(out)@ + header_bytes(n as u64) + tags@;
    assert(out@ =~= start);
    let mut i: usize = 0;
    while i < n
        invariant
            i <= n,
            n == slots@.len(),
            out@ == start + encode_all(slots@.take(i as int)),
            forall|k: int| 0 <= k < i ==> round_trips(#[trigger] slots@[k]),
        decreases n - i,
    {
        let ghost before = out@;
        slots[i].encode(out);
        proof {
            let e = slots@[i as int];
            assert(out@.subrange(before.len() as int, out@.len() as int) =~= e.spec_encode());
            assert(round_trips(e));
            assert(slots@.take(i + 1).drop_last() =~= slots@.take(i as int));
            assert(slots@.take(i + 1).last() == e);
            assert(out@ =~= start + encode_all(slots@.take(i + 1)));
        }
        i = i + 1;
    }
    proof {
        assert(slots@.take(n as int) =~= slots@);
        assert(out@ =~= old(out)@ + snapshot_bytes(tags@, slots@));
        lemma_parse_of_snapshot(tags@, slots@);
    }
}

/// Reads the tags and the records of a snapshot from the start of `bytes`.
pub fn read_snapshot<E: Entry>(bytes: &[u8]) -> (r: Result<(Vec<u8>, Vec<E>), LoadError>)
    ensures
        match r {
            Ok((tags, slots)) => parse::<E>(bytes@) == Ok::<(Seq<u8>, Seq<E>), LoadError>(
                (tags@, slots@),
            ) && tags@.len() == slots@.len(),
            Err(e) => parse::<E>(bytes@) == Err::<(Seq<u8>, Seq<E>), LoadError>(e),
        },
{
    let entries = match decode_header(bytes) {
        Ok(entries) => entries,
        Err(e) => {
            return Err(e);
        },
    };
    let room = bytes.len() - HEADER_LEN;
    let need = match payload_size::<E>(entries) {
        Some(need) => need,
        None => {
            return Err(LoadError::Truncated);
        },
    };
    if room < need {
        return Err(LoadError::Truncated);
    }
    let width = E::width();
    let ghost w = E::spec_width() as int;
    assert(entries * (1 + w) == entries + entries * w) by (nonlinear_arith);
    assert(entries * w >= 0) by (nonlinear_arith)
        requires
            entries >= 0,
            w >= 0,
    ;
    let n = entries as usize;
    let tags_end = HEADER_LEN + n;
    let tags = slice_to_vec(slice_subrange(bytes, HEADER_LEN, tags_end));
    let body = slice_subrange(bytes, tags_end, HEADER_LEN + need);
    let mut slots: Vec<E> = Vec::new();
    let mut i: usize = 0;
    while i < n
        invariant
            i <= n,
            width == w,
            w == E::spec_width(),
            body@.len() == n * w,
            n * w <= usize::MAX,
            slots@.len() == i,
            forall|k: int| 0 <= k < i ==> slots@[k] == decode_all::<E>(body@, n as nat)[k],
        decreases n - i,
    {
        assert(0 <= i * w && (i + 1) * w == i * w + w && (i + 1) * w <= n * w)
            by (nonlinear_arith)
            requires
                0 <= i < n,
                w >= 0,
        ;
        let chunk = slice_subrange(body, i * width, (i + 1) * width);
        slots.push(E::decode(chunk));
        i = i + 1;
    }
    assert(slots@ =~= decode_all::<E>(body@, n as nat));
    Ok((tags, slots))
}

} // verus!
