//! What holds of lookups, stores and snapshots, proved of the model.

use vstd::prelude::*;
use crate::entry::{Entry, round_trips};
use crate::snapshot::{lemma_parse_of_extended_snapshot, parse, snapshot_bytes};
use crate::window::{
    TableModel, first_free, free_at, holds, lemma_probe_in_range, probe_at, spec_tag, victim_in,
    worst_in,
};

verus! {

/// Below any index at which `pred` holds there is a least one.
proof fn lemma_least(pred: spec_fn(int) -> bool, q: int) -> (p: int)
    requires
        0 <= q,
        pred(q),
    ensures
        0 <= p <= q,
        pred(p),
        forall|k: int| 0 <= k < p ==> !#[trigger] pred(k),
    decreases q,
{
    if exists|k: int| 0 <= k < q && #[trigger] pred(k) {
        let k = choose|k: int| 0 <= k < q && #[trigger] pred(k);
        lemma_least(pred, k)
    } else {
        q
    }
}

/// The least valuable slot among probes `0..=j` is the slot of one of them.
proof fn lemma_worst_in_window<E: Entry>(slots: Seq<E>, h: u64, j: int) -> (p: int)
    requires
        j >= 0,
    ensures
        0 <= p <= j,
        worst_in(slots, h, j) == probe_at(slots.len() as int, h, p),
    decreases j,
{
    if j <= 0 {
        0
    } else {
        let earlier = lemma_worst_in_window(slots, h, j - 1);
        let kept = worst_in(slots, h, j - 1);
        let next = probe_at(slots.len() as int, h, j);
        if slots[kept].spec_better_than(&slots[next]) {
            j
        } else {
            earlier
        }
    }
}

/// A first hit is what a lookup finds.
pub proof fn lemma_first_hit_found<E: Entry>(m: TableModel<E>, h: u64, p: int)
    requires
        m.first_hit(h, p),
    ensures
        m.lookup_slot(h) == Some(m.at(h, p)),
        m.lookup(h) == Some(m.slots[m.at(h, p)]),
{
    let c = choose|c: int| m.first_hit(h, c);
    assert(m.hit(h, c) && m.hit(h, p));
    assert(c == p);
}

/// A first free probe is where the victim lies.
pub proof fn lemma_first_free_found<E: Entry>(slots: Seq<E>, ways: nat, h: u64, p: int)
    requires
        first_free(slots, ways, h, p),
    ensures
        victim_in(slots, ways, h) == probe_at(slots.len() as int, h, p),
{
    let c = choose|c: int| first_free(slots, ways, h, c);
    assert(free_at(slots, h, c) && free_at(slots, h, p));
    assert(c == p);
}

/// A lookup finds its record at one of the probes of its own window and
/// nowhere else: it returns a slot exactly when some probe of the window is a
/// hit, and then the slot of the first such probe.
pub proof fn lemma_lookup_in_window<E: Entry>(m: TableModel<E>, h: u64)
    ensures
        match m.lookup_slot(h) {
            Some(i) => exists|j: int| m.first_hit(h, j) && i == m.at(h, j),
            None => forall|j: int| 0 <= j < m.ways ==> !m.hit(h, j),
        },
{
    if exists|j: int| m.first_hit(h, j) {
        let c = choose|j: int| m.first_hit(h, j);
        assert(m.first_hit(h, c) && m.lookup_slot(h) == Some(m.at(h, c)));
    } else {
        assert forall|j: int| 0 <= j < m.ways implies !m.hit(h, j) by {
            if m.hit(h, j) {
                let p = lemma_least(|k: int| m.hit(h, k), j);
                assert forall|k: int| 0 <= k < p implies !m.hit(h, k) by {
                    assert(!(|k: int| m.hit(h, k))(k));
                }
                assert(m.first_hit(h, p));
            }
        }
    }
}

/// What a lookup returns is a valid record of the signature looked for.
pub proof fn lemma_lookup_holds<E: Entry>(m: TableModel<E>, h: u64)
    ensures
        match m.lookup(h) {
            Some(e) => holds(e, h),
            None => true,
        },
{
    lemma_lookup_in_window(m, h);
    if m.lookup_slot(h) is Some {
        let j = choose|j: int| m.first_hit(h, j) && m.lookup_slot(h).unwrap() == m.at(h, j);
        assert(m.hit(h, j));
    }
}

/// Where the victim lies. The result is the first probe that falls on the
/// victim's slot; no earlier probe is free for `h`; and when the victim's own
/// slot is not free for `h`, no probe of the window is.
pub proof fn lemma_victim<E: Entry>(m: TableModel<E>, h: u64) -> (p: int)
    requires
        m.usable(),
        m.ways > 0,
    ensures
        0 <= p < m.ways,
        m.at(h, p) == m.victim(h),
        0 <= m.victim(h) < m.len(),
        forall|k: int|
            #![trigger free_at(m.slots, h, k)]
            #![trigger probe_at(m.slots.len() as int, h, k)]
            0 <= k < p ==> !free_at(m.slots, h, k) && probe_at(m.slots.len() as int, h, k)
                != m.victim(h),
        !free_at(m.slots, h, p) ==> forall|k: int| 0 <= k < m.ways ==> !free_at(m.slots, h, k),
{
    let v = m.victim(h);
    let len = m.slots.len() as int;
    let mut q: int = 0;
    if exists|j: int| first_free(m.slots, m.ways, h, j) {
        q = choose|j: int| first_free(m.slots, m.ways, h, j);
        assert(first_free(m.slots, m.ways, h, q));
    } else {
        q = lemma_worst_in_window(m.slots, h, m.ways - 1);
        assert forall|k: int| 0 <= k < m.ways implies !free_at(m.slots, h, k) by {
            if free_at(m.slots, h, k) {
                let f = lemma_least(|i: int| free_at(m.slots, h, i), k);
                assert forall|i: int| 0 <= i < f implies !free_at(m.slots, h, i) by {
                    assert(!(|i: int| free_at(m.slots, h, i))(i));
                }
                assert(first_free(m.slots, m.ways, h, f));
            }
        }
    }
    assert(0 <= q < m.ways && probe_at(len, h, q) == v);
    assert(forall|k: int| 0 <= k < q ==> !free_at(m.slots, h, k));
    let p = lemma_least(|k: int| probe_at(len, h, k) == v, q);
    assert forall|k: int| 0 <= k < p implies !free_at(m.slots, h, k) && probe_at(len, h, k)
        != v by {
        assert(!(|k: int| probe_at(len, h, k) == v)(k));
    }
    lemma_probe_in_range(len, h, p);
    p
}

/// Once a store of `e` has been taken, a lookup of its signature returns `e`.
pub proof fn lemma_store_then_lookup<E: Entry>(m: TableModel<E>, e: E)
    requires
        m.usable(),
        m.ways > 0,
        e.spec_valid(),
        m.accepts(e),
    ensures
        m.store(e).lookup(e.spec_hash()) == Some(e),
{
    let h = e.spec_hash();
    let len = m.slots.len() as int;
    let p = lemma_victim(m, h);
    let v = m.victim(h);
    let after = m.store(e);
    assert(after.slots.len() == m.slots.len());
    assert(after.at(h, p) == v);
    assert(after.hit(h, p));
    assert forall|k: int| 0 <= k < p implies !after.hit(h, k) by {
        lemma_probe_in_range(len, h, k);
        assert(!free_at(m.slots, h, k) && m.at(h, k) != v);
        assert(after.slots[after.at(h, k)] == m.slots[m.at(h, k)]);
    }
    assert(after.first_hit(h, p));
    lemma_first_hit_found(after, h, p);
}

/// A store that is taken leaves the victim of its signature where it was: the
/// next record of that signature competes for the same slot.
pub proof fn lemma_victim_after_store<E: Entry>(m: TableModel<E>, e: E)
    requires
        m.usable(),
        m.ways > 0,
        m.accepts(e),
    ensures
        m.store(e).victim(e.spec_hash()) == m.victim(e.spec_hash()),
        m.store(e).slots[m.victim(e.spec_hash())] == e,
        m.store(e).usable(),
        m.store(e).ways == m.ways,
{
    let h = e.spec_hash();
    let len = m.slots.len() as int;
    let p = lemma_victim(m, h);
    let v = m.victim(h);
    let after = m.store(e);
    assert(after.slots.len() == m.slots.len());
    assert(free_at(after.slots, h, p));
    assert forall|k: int| 0 <= k < p implies !free_at(after.slots, h, k) by {
        lemma_probe_in_range(len, h, k);
        assert(!free_at(m.slots, h, k) && m.at(h, k) != v);
        assert(after.slots[probe_at(len, h, k)] == m.slots[probe_at(len, h, k)]);
    }
    assert(first_free(after.slots, after.ways, h, p));
    lemma_first_free_found(after.slots, after.ways, h, p);
}

/// Of two records of one signature, the better one stored after the other
/// takes its place. This holds whenever either of them would be taken by the
/// table as it stands: `b` may be taken first and then give way to `a`, or be
/// turned down and leave the slot to `a`.
pub proof fn lemma_better_stored_last<E: Entry>(m: TableModel<E>, a: E, b: E)
    requires
        m.usable(),
        m.ways > 0,
        a.spec_valid(),
        b.spec_valid(),
        a.spec_hash() == b.spec_hash(),
        a.spec_better_than(&b),
        m.accepts(b) || m.accepts(a),
    ensures
        m.store(b).accepts(a),
        m.store(b).store(a).lookup(a.spec_hash()) == Some(a),
{
    if m.accepts(b) {
        lemma_victim_after_store(m, b);
    }
    lemma_store_then_lookup(m.store(b), a);
}

/// Of two records of one signature, the one stored last is turned down when it
/// is not better than the one in place, and the table stays as it was.
pub proof fn lemma_better_stored_first<E: Entry>(m: TableModel<E>, a: E, b: E)
    requires
        m.usable(),
        m.ways > 0,
        a.spec_valid(),
        b.spec_valid(),
        a.spec_hash() == b.spec_hash(),
        m.accepts(a),
        !b.spec_better_than(&a),
    ensures
        !m.store(a).accepts(b),
        m.store(a).store(b) == m.store(a),
        m.store(a).store(b).lookup(a.spec_hash()) == Some(a),
{
    lemma_victim_after_store(m, a);
    lemma_store_then_lookup(m, a);
}

/// A lookup whose window is full of valid records of other signatures finds
/// nothing, whatever the rest of the table holds.
pub proof fn lemma_crowded_window_misses<E: Entry>(m: TableModel<E>, h: u64)
    requires
        forall|j: int|
            0 <= j < m.ways ==> (#[trigger] m.slots[m.at(h, j)]).spec_valid() && m.slots[m.at(
                h,
                j,
            )].spec_hash() != h,
    ensures
        m.lookup(h) is None,
{
    assert forall|c: int| !m.first_hit(h, c) by {
        if m.first_hit(h, c) {
            assert(m.slots[m.at(h, c)].spec_valid());
        }
    }
}

/// A lookup reads the slots of its own window only: two tables that agree on
/// the window of `h` answer a lookup of `h` alike.
pub proof fn lemma_lookup_is_local<E: Entry>(m1: TableModel<E>, m2: TableModel<E>, h: u64)
    requires
        m1.slots.len() == m2.slots.len(),
        m1.ways == m2.ways,
        forall|j: int|
            0 <= j < m1.ways ==> m1.tags[#[trigger] m1.at(h, j)] == m2.tags[m1.at(h, j)]
                && m1.slots[m1.at(h, j)] == m2.slots[m1.at(h, j)],
    ensures
        m1.lookup(h) == m2.lookup(h),
{
    assert forall|j: int| 0 <= j < m1.ways implies m1.hit(h, j) == m2.hit(h, j) by {
        assert(m1.at(h, j) == m2.at(h, j));
    }
    if exists|j: int| m1.first_hit(h, j) {
        let c = choose|j: int| m1.first_hit(h, j);
        assert(m1.first_hit(h, c));
        assert forall|k: int| 0 <= k < c implies !m2.hit(h, k) by {
            assert(!m1.hit(h, k));
        }
        assert(m2.first_hit(h, c));
        lemma_first_hit_found(m1, h, c);
        lemma_first_hit_found(m2, h, c);
    } else {
        assert forall|c: int| !m2.first_hit(h, c) by {
            if m2.first_hit(h, c) {
                assert forall|k: int| 0 <= k < c implies !m1.hit(h, k) by {
                    assert(!m2.hit(h, k));
                }
                assert(m1.first_hit(h, c));
            }
        }
    }
}

/// A store changes no slot but the victim's, which lies in the window of the
/// record's signature, and keeps every valid record beside its tag.
pub proof fn lemma_store_is_local<E: Entry>(m: TableModel<E>, e: E)
    requires
        m.usable(),
        m.ways > 0,
        e.spec_valid(),
    ensures
        m.store(e).usable(),
        m.store(e).ways == m.ways,
        m.store(e).len() == m.len(),
        exists|j: int| 0 <= j < m.ways && m.at(e.spec_hash(), j) == m.victim(e.spec_hash()),
        forall|i: int|
            0 <= i < m.len() && i != m.victim(e.spec_hash()) ==> m.store(e).slots[i] == m.slots[i]
                && m.store(e).tags[i] == m.tags[i],
        m.consistent() ==> m.store(e).consistent(),
{
    let p = lemma_victim(m, e.spec_hash());
    assert(0 <= p < m.ways && m.at(e.spec_hash(), p) == m.victim(e.spec_hash()));
    if m.consistent() {
        let after = m.store(e);
        assert forall|i: int|
            0 <= i < after.slots.len() && (#[trigger] after.slots[i]).spec_valid() implies after.tags[i]
            == spec_tag(after.slots[i].spec_hash()) by {
            if i != m.victim(e.spec_hash()) || !m.accepts(e) {
                assert(m.slots[i].spec_valid());
            }
        }
    }
}

/// In a table that keeps every valid record beside its tag, the tag hides
/// nothing: a lookup finds a record exactly when some slot of the window holds
/// a valid record of that signature.
pub proof fn lemma_consistent_lookup<E: Entry>(m: TableModel<E>, h: u64)
    requires
        m.usable(),
        m.consistent(),
    ensures
        m.lookup(h) is Some <==> exists|j: int|
            0 <= j < m.ways && (#[trigger] m.slots[m.at(h, j)]).spec_valid() && m.slots[m.at(
                h,
                j,
            )].spec_hash() == h,
{
    lemma_lookup_in_window(m, h);
    if m.lookup(h) is Some {
        let j = choose|j: int| m.first_hit(h, j) && m.lookup_slot(h).unwrap() == m.at(h, j);
        assert(m.slots[m.at(h, j)].spec_valid());
    }
    if exists|j: int|
        0 <= j < m.ways && (#[trigger] m.slots[m.at(h, j)]).spec_valid() && m.slots[m.at(
            h,
            j,
        )].spec_hash() == h {
        let j = choose|j: int|
            0 <= j < m.ways && (#[trigger] m.slots[m.at(h, j)]).spec_valid() && m.slots[m.at(
                h,
                j,
            )].spec_hash() == h;
        lemma_probe_in_range(m.slots.len() as int, h, j);
        assert(m.hit(h, j));
    }
}

/// A snapshot gives the table back. Read from the snapshot of a table,
/// whatever bytes follow it, the tags and the records are those of the table,
/// slot for slot, so that a table restored with the same associativity
/// answers every lookup as the table that was dumped.
pub proof fn lemma_restored_table_looks_up_alike<E: Entry>(
    m: TableModel<E>,
    rest: Seq<u8>,
    h: u64,
)
    requires
        m.wf(),
        m.len() <= u64::MAX,
        forall|i: int| 0 <= i < m.slots.len() ==> round_trips(#[trigger] m.slots[i]),
    ensures
        match parse::<E>(snapshot_bytes(m.tags, m.slots) + rest) {
            Ok((tags, slots)) => {
                &&& tags == m.tags
                &&& slots == m.slots
                &&& (TableModel { tags, slots, ways: m.ways }) == m
                &&& (TableModel { tags, slots, ways: m.ways }).lookup(h) == m.lookup(h)
            },
            Err(_) => false,
        },
{
    lemma_parse_of_extended_snapshot(m.tags, m.slots, rest);
}

} // verus!
