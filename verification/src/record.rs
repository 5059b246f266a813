//! A record type ready for use.

use vstd::prelude::*;
use vstd::bytes::{
    lemma_auto_spec_u32_to_from_le_bytes, lemma_auto_spec_u64_to_from_le_bytes,
    spec_u32_from_le_bytes, spec_u32_to_le_bytes, spec_u64_from_le_bytes, spec_u64_to_le_bytes,
    u32_from_le_bytes, u32_to_le_bytes, u64_from_le_bytes, u64_to_le_bytes,
};
use vstd::slice::slice_subrange;
use crate::entry::{Entry, round_trips};

verus! {

/// A plain search record: the value found for a position by a search of some
/// depth. A depth of zero marks a record that holds nothing, and a deeper
/// search displaces a shallower one.
///
/// In a snapshot the record takes twenty bytes: the signature, the value and
/// the depth, each least significant byte first.
#[derive(Clone, Copy, Debug, PartialEq, Eq, Structural)]
pub struct Scored {
    pub signature: u64,
    pub value: u64,
    pub depth: u32,
}

impl Default for Scored {
    fn default() -> (blank: Scored)
        ensures
            blank == (Scored { signature: 0, value: 0, depth: 0 }),
    {
        Scored { signature: 0, value: 0, depth: 0 }
    }
}

impl Entry for Scored {
    open spec fn spec_hash(&self) -> u64 {
        self.signature
    }

    open spec fn spec_valid(&self) -> bool {
        self.depth > 0
    }

    open spec fn spec_better_than(&self, rhs: &Self) -> bool {
        self.depth > rhs.depth
    }

    open spec fn spec_width() -> nat {
        20
    }

    open spec fn spec_encode(&self) -> Seq<u8> {
        spec_u64_to_le_bytes(self.signature) + spec_u64_to_le_bytes(self.value)
            + spec_u32_to_le_bytes(self.depth)
    }

    open spec fn spec_decode(bytes: Seq<u8>) -> Self {
        Scored {
            signature: spec_u64_from_le_bytes(bytes.subrange(0, 8)),
            value: spec_u64_from_le_bytes(bytes.subrange(8, 16)),
            depth: spec_u32_from_le_bytes(bytes.subrange(16, 20)),
        }
    }

    fn hash(&self) -> (h: u64) {
        self.signature
    }

    fn valid(&self) -> (v: bool) {
        self.depth > 0
    }

    fn better_than(&self, rhs: &Self) -> (b: bool) {
        self.depth > rhs.depth
    }

    fn width() -> (n: usize) {
        20
    }

    fn encode(&self, out: &mut Vec<u8>) {
        let mut signature = u64_to_le_bytes(self.signature);
        let mut value = u64_to_le_bytes(self.value);
        let mut depth = u32_to_le_bytes(self.depth);
        out.append(&mut signature);
        out.append(&mut value);
        out.append(&mut depth);
        proof {
            lemma_auto_spec_u64_to_from_le_bytes();
            lemma_auto_spec_u32_to_from_le_bytes();
            let bytes = self.spec_encode();
            assert(final(out)@ =~= old(out)@ + bytes);
            assert(final(out)@.subrange(old(out)@.len() as int, final(out)@.len() as int)
                =~= bytes);
            assert(bytes.subrange(0, 8) =~= spec_u64_to_le_bytes(self.signature));
            assert(bytes.subrange(8, 16) =~= spec_u64_to_le_bytes(self.value));
            assert(bytes.subrange(16, 20) =~= spec_u32_to_le_bytes(self.depth));
        }
    }

    fn decode(bytes: &[u8]) -> (e: Self) {
        Scored {
            signature: u64_from_le_bytes(slice_subrange(bytes, 0, 8)),
            value: u64_from_le_bytes(slice_subrange(bytes, 8, 16)),
            depth: u32_from_le_bytes(slice_subrange(bytes, 16, 20)),
        }
    }
}

/// The encoding of a record is twenty bytes long and decodes to the record.
pub proof fn lemma_scored_round_trips(e: Scored)
    ensures
        round_trips(e),
{
    lemma_auto_spec_u64_to_from_le_bytes();
    lemma_auto_spec_u32_to_from_le_bytes();
    let bytes = e.spec_encode();
    assert(bytes.subrange(0, 8) =~= spec_u64_to_le_bytes(e.signature));
    assert(bytes.subrange(8, 16) =~= spec_u64_to_le_bytes(e.value));
    assert(bytes.subrange(16, 20) =~= spec_u32_to_le_bytes(e.depth));
}

/// Depth orders the records strictly: no record is better than itself, of two
/// records at most one is better than the other, and better than better is
/// better.
pub proof fn lemma_scored_order_is_strict(a: Scored, b: Scored, c: Scored)
    ensures
        !a.spec_better_than(&a),
        a.spec_better_than(&b) ==> !b.spec_better_than(&a),
        a.spec_better_than(&b) && b.spec_better_than(&c) ==> a.spec_better_than(&c),
{
}

} // verus!
