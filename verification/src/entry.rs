//! The contract between the table and the records it keeps.

use vstd::prelude::*;

verus! {

/// What a cached record must expose to be kept in a table.
///
/// Each executable method has a specification counterpart that says which value
/// it returns; an implementation gives both. The bodies written here stand for
/// nothing in particular: they are what an implementation replaces.
pub trait Entry: Sized {
    /// The 64-bit signature of the position that the record belongs to.
    open spec fn spec_hash(&self) -> u64 {
        arbitrary()
    }

    /// Whether the record holds a result at all.
    open spec fn spec_valid(&self) -> bool {
        arbitrary()
    }

    /// Whether `self` should displace `rhs` when both compete for one slot.
    /// Nothing is asked of this relation: it need not be transitive or total.
    open spec fn spec_better_than(&self, rhs: &Self) -> bool {
        arbitrary()
    }

    /// The number of bytes that the encoding of any record takes.
    open spec fn spec_width() -> nat {
        arbitrary()
    }

    /// The bytes that stand for the record in a snapshot.
    open spec fn spec_encode(&self) -> Seq<u8> {
        arbitrary()
    }

    /// The record that `bytes` stand for.
    open spec fn spec_decode(bytes: Seq<u8>) -> Self {
        arbitrary()
    }

    /// The signature of the record.
    fn hash(&self) -> (h: u64)
        ensures
            h == self.spec_hash(),
    ;

    /// Whether the record holds a result. A table takes a default record
    /// that is not valid for an empty slot.
    fn valid(&self) -> (v: bool)
        ensures
            v == self.spec_valid(),
    ;

    /// Whether `self` should displace `rhs`: the table asks this of two
    /// records that compete for one slot, and of no others.
    fn better_than(&self, rhs: &Self) -> (b: bool)
        ensures
            b == self.spec_better_than(rhs),
    ;

    /// The fixed size of an encoded record.
    fn width() -> (n: usize)
        ensures
            n == Self::spec_width(),
    ;

    /// Appends the record's encoding to `out`. The encoding has the fixed
    /// width, and decoding it gives the record back.
    fn encode(&self, out: &mut Vec<u8>)
        ensures
            final(out)@ == old(out)@ + self.spec_encode(),
            final(out)@.len() == old(out)@.len() + Self::spec_width(),
            Self::spec_decode(
                final(out)@.subrange(old(out)@.len() as int, final(out)@.len() as int),
            ) == *self,
    ;

    /// Reads a record back from exactly `width()` bytes. Every such run of
    /// bytes stands for some record.
    fn decode(bytes: &[u8]) -> (e: Self)
        requires
            bytes@.len() == Self::spec_width(),
        ensures
            e == Self::spec_decode(bytes@),
    ;
}

/// Encoding a record and decoding the bytes gives the record back, and the
/// encoding has the fixed width.
pub open spec fn round_trips<E: Entry>(e: E) -> bool {
    &&& e.spec_encode().len() == E::spec_width()
    &&& E::spec_decode(e.spec_encode()) == e
}

} // verus!
