//! Why a reader never keeps a torn copy. The memory that one counter guards
//! is taken as a run of bytes, and the steps of the writers as happening one
//! at a time; what processors may reorder is left to the barriers that the
//! steps are done with.

use vstd::prelude::*;
use crate::seqlock::{ReadEvent, Reader};

verus! {

/// One step of a writer on the memory that one counter guards.
pub enum WriterStep {
    /// The counter goes up by one before the write.
    Begin,
    /// One byte of a tag or of a record is written.
    Put { at: int, byte: u8 },
    /// The counter goes up by one after the write.
    End,
}

/// One store as the memory sees it: the bytes of the tag and of the record,
/// and where they go.
pub struct Write {
    pub at: int,
    pub bytes: Seq<u8>,
}

/// How often the counter went up in the first `t` steps.
pub open spec fn bumps(trace: Seq<WriterStep>, t: int) -> nat
    decreases t,
{
    if t <= 0 {
        0
    } else {
        match trace[t - 1] {
            WriterStep::Put { .. } => bumps(trace, t - 1),
            _ => bumps(trace, t - 1) + 1,
        }
    }
}

/// The memory after the first `t` steps. A byte aimed outside the memory is
/// not written.
pub open spec fn memory_at(init: Seq<u8>, trace: Seq<WriterStep>, t: int) -> Seq<u8>
    decreases t,
{
    if t <= 0 {
        init
    } else {
        let before = memory_at(init, trace, t - 1);
        match trace[t - 1] {
            WriterStep::Put { at, byte } => if 0 <= at < before.len() {
                before.update(at, byte)
            } else {
                before
            },
            _ => before,
        }
    }
}

/// The write protocol: a writer raises the counter to an odd value before it
/// writes, writes only while the counter is odd, and raises it to an even
/// value when it is done.
pub open spec fn disciplined(trace: Seq<WriterStep>) -> bool {
    forall|t: int|
        0 <= t < trace.len() ==> match #[trigger] trace[t] {
            WriterStep::Begin => bumps(trace, t) % 2 == 0,
            WriterStep::Put { .. } => bumps(trace, t) % 2 == 1,
            WriterStep::End => bumps(trace, t) % 2 == 1,
        }
}

/// The steps of one store: the counter goes up, the bytes are written one by
/// one, the counter goes up again.
#[verifier::opaque]
pub open spec fn store_steps(w: Write) -> Seq<WriterStep> {
    seq![WriterStep::Begin] + Seq::new(
        w.bytes.len(),
        |k: int| WriterStep::Put { at: w.at + k, byte: w.bytes[k] },
    ) + seq![WriterStep::End]
}

/// The steps of stores done one after another, as writers that take turns
/// behind one lock do them.
pub open spec fn steps_of(writes: Seq<Write>) -> Seq<WriterStep>
    decreases writes.len(),
{
    if writes.len() == 0 {
        Seq::empty()
    } else {
        steps_of(writes.drop_last()) + store_steps(writes.last())
    }
}

/// The memory with the first `n` bytes of `w` in place.
pub open spec fn written_upto(memory: Seq<u8>, w: Write, n: int) -> Seq<u8> {
    Seq::new(
        memory.len(),
        |i: int|
            if w.at <= i < w.at + n {
                w.bytes[i - w.at]
            } else {
                memory[i]
            },
    )
}

/// The memory as a run of whole stores leaves it.
pub open spec fn memory_after(init: Seq<u8>, writes: Seq<Write>) -> Seq<u8>
    decreases writes.len(),
{
    if writes.len() == 0 {
        init
    } else {
        written_upto(
            memory_after(init, writes.drop_last()),
            writes.last(),
            writes.last().bytes.len() as int,
        )
    }
}

/// What a 32-bit counter reads after `n` increments from zero.
pub open spec fn counter_value(n: nat) -> u32 {
    (n % 0x1_0000_0000) as u32
}

/// Whether a reader that loads `before`, copies, and loads `after` keeps the
/// copy.
pub open spec fn accepted(before: u32, after: u32) -> bool {
    before % 2 == 0 && after == before
}

/// A reader keeps its copy exactly when the counter was even before the copy
/// and the same after it.
pub proof fn lemma_reader_accepts(before: u32, after: u32)
    ensures
        Reader::Arming.spec_step(ReadEvent::Counter { value: before }).0.spec_step(
            ReadEvent::Copied,
        ).0.spec_step(ReadEvent::Counter { value: after }).0 is Done <==> accepted(before, after),
{
}

/// The counter never goes down, and goes up by one a step at most.
pub proof fn lemma_bumps_monotone(trace: Seq<WriterStep>, a: int, b: int)
    requires
        0 <= a <= b,
    ensures
        bumps(trace, a) <= bumps(trace, b),
        bumps(trace, b) - bumps(trace, a) <= b - a,
    decreases b - a,
{
    if a < b {
        lemma_bumps_monotone(trace, a, b - 1);
    }
}

/// Steps that come later change neither how often the counter had gone up nor
/// what the memory held.
pub proof fn lemma_prefix(init: Seq<u8>, trace: Seq<WriterStep>, more: Seq<WriterStep>, t: int)
    requires
        t <= trace.len(),
    ensures
        bumps(trace + more, t) == bumps(trace, t),
        memory_at(init, trace + more, t) == memory_at(init, trace, t),
    decreases t,
{
    if t > 0 {
        lemma_prefix(init, trace, more, t - 1);
        assert((trace + more)[t - 1] == trace[t - 1]);
    }
}

/// In the middle of a store that began at step `n`: after the first `j` bytes
/// the counter is one up, and the memory holds those bytes.
proof fn lemma_store_run(init: Seq<u8>, all: Seq<WriterStep>, n: int, w: Write, j: int)
    requires
        0 <= n,
        0 <= j <= w.bytes.len(),
        n + w.bytes.len() + 2 <= all.len(),
        all[n] is Begin,
        forall|i: int|
            n + 1 <= i < n + 1 + w.bytes.len() ==> #[trigger] all[i] == (WriterStep::Put {
                at: w.at + (i - n - 1),
                byte: w.bytes[i - n - 1],
            }),
    ensures
        bumps(all, n + 1 + j) == bumps(all, n) + 1,
        memory_at(init, all, n + 1 + j) == written_upto(memory_at(init, all, n), w, j),
    decreases j,
{
    let start = memory_at(init, all, n);
    if j > 0 {
        lemma_store_run(init, all, n, w, j - 1);
        assert(all[n + j] == (WriterStep::Put { at: w.at + (j - 1), byte: w.bytes[j - 1] }));
        assert(memory_at(init, all, n + 1 + j) =~= written_upto(start, w, j));
    } else {
        assert(memory_at(init, all, n + 1) =~= written_upto(start, w, 0));
    }
}

/// A store appended to a trace stands in it step for step.
proof fn lemma_store_appended(trace: Seq<WriterStep>, w: Write)
    ensures
        (trace + store_steps(w)).len() == trace.len() + w.bytes.len() + 2,
        (trace + store_steps(w))[trace.len() as int] is Begin,
        (trace + store_steps(w))[trace.len() as int + w.bytes.len() + 1] is End,
        forall|i: int|
            trace.len() + 1 <= i < trace.len() + 1 + w.bytes.len() ==> #[trigger] (trace
                + store_steps(w))[i] == (WriterStep::Put {
                at: w.at + (i - trace.len() - 1),
                byte: w.bytes[i - trace.len() - 1],
            }),
{
    reveal(store_steps);
    let n = trace.len() as int;
    let steps = store_steps(w);
    let all = trace + steps;
    assert(steps.len() == w.bytes.len() + 2);
    assert(all[n] == steps[0]);
    assert(all[n + w.bytes.len() + 1] == steps[w.bytes.len() as int + 1]);
    assert forall|i: int| n + 1 <= i < n + 1 + w.bytes.len() implies #[trigger] all[i] == (
    WriterStep::Put { at: w.at + (i - n - 1), byte: w.bytes[i - n - 1] }) by {
        assert(all[i] == steps[i - n]);
    }
}

/// A store that stands at the end of a trace, after steps that keep to the
/// protocol and leave the counter even, keeps to the protocol itself.
#[verifier::rlimit(50)]
proof fn lemma_bracket(init: Seq<u8>, all: Seq<WriterStep>, n: int, w: Write)
    requires
        0 <= n,
        all.len() == n + w.bytes.len() + 2,
        all[n] is Begin,
        all[n + w.bytes.len() + 1] is End,
        forall|i: int|
            n + 1 <= i < n + 1 + w.bytes.len() ==> #[trigger] all[i] == (WriterStep::Put {
                at: w.at + (i - n - 1),
                byte: w.bytes[i - n - 1],
            }),
        bumps(all, n) % 2 == 0,
        forall|t: int|
            0 <= t < n ==> match #[trigger] all[t] {
                WriterStep::Begin => bumps(all, t) % 2 == 0,
                WriterStep::Put { .. } => bumps(all, t) % 2 == 1,
                WriterStep::End => bumps(all, t) % 2 == 1,
            },
    ensures
        disciplined(all),
        bumps(all, all.len() as int) == bumps(all, n) + 2,
        memory_at(init, all, all.len() as int) == written_upto(
            memory_at(init, all, n),
            w,
            w.bytes.len() as int,
        ),
{
    let m = w.bytes.len() as int;
    lemma_store_run(init, all, n, w, m);
    assert forall|t: int| 0 <= t < all.len() implies match #[trigger] all[t] {
        WriterStep::Begin => bumps(all, t) % 2 == 0,
        WriterStep::Put { .. } => bumps(all, t) % 2 == 1,
        WriterStep::End => bumps(all, t) % 2 == 1,
    } by {
        if t > n {
            lemma_store_run(init, all, n, w, t - n - 1);
            if t < n + m + 1 {
                assert(all[t] is Put);
            }
        }
    }
}

/// A store that begins while no other is under way keeps to the protocol,
/// leaves the counter even again, and leaves its bytes in the memory: writers
/// that take turns keep to the protocol for ever.
#[verifier::rlimit(50)]
pub proof fn lemma_store_keeps_discipline(init: Seq<u8>, trace: Seq<WriterStep>, w: Write)
    requires
        disciplined(trace),
        bumps(trace, trace.len() as int) % 2 == 0,
    ensures
        disciplined(trace + store_steps(w)),
        bumps(trace + store_steps(w), (trace + store_steps(w)).len() as int) == bumps(
            trace,
            trace.len() as int,
        ) + 2,
        memory_at(init, trace + store_steps(w), (trace + store_steps(w)).len() as int)
            == written_upto(
            memory_at(init, trace, trace.len() as int),
            w,
            w.bytes.len() as int,
        ),
{
    let n = trace.len() as int;
    let all = trace + store_steps(w);
    lemma_store_appended(trace, w);
    lemma_prefix(init, trace, store_steps(w), n);
    assert forall|t: int| 0 <= t < n implies match #[trigger] all[t] {
        WriterStep::Begin => bumps(all, t) % 2 == 0,
        WriterStep::Put { .. } => bumps(all, t) % 2 == 1,
        WriterStep::End => bumps(all, t) % 2 == 1,
    } by {
        lemma_prefix(init, trace, store_steps(w), t);
        assert(all[t] == trace[t]);
    }
    lemma_bracket(init, all, n, w);
}

/// Stores done one after another keep to the protocol; the counter has gone
/// up twice for each, and the memory is as the stores leave it.
#[verifier::rlimit(50)]
pub proof fn lemma_turns_keep_discipline(init: Seq<u8>, writes: Seq<Write>)
    ensures
        disciplined(steps_of(writes)),
        bumps(steps_of(writes), steps_of(writes).len() as int) == 2 * writes.len(),
        memory_at(init, steps_of(writes), steps_of(writes).len() as int) == memory_after(
            init,
            writes,
        ),
    decreases writes.len(),
{
    if writes.len() > 0 {
        lemma_turns_keep_discipline(init, writes.drop_last());
        lemma_store_keeps_discipline(init, steps_of(writes.drop_last()), writes.last());
    }
}

/// The steps of a run of stores are those of all but the last, and then those
/// of the last.
proof fn lemma_steps_unfold(writes: Seq<Write>)
    requires
        writes.len() > 0,
    ensures
        steps_of(writes) == steps_of(writes.drop_last()) + store_steps(writes.last()),
        steps_of(writes).len() == steps_of(writes.drop_last()).len() + writes.last().bytes.len()
            + 2,
{
    lemma_store_appended(steps_of(writes.drop_last()), writes.last());
}

/// While the last of a run of stores is under way, the counter is odd.
#[verifier::rlimit(50)]
proof fn lemma_odd_inside_store(init: Seq<u8>, writes: Seq<Write>, t: int)
    requires
        writes.len() > 0,
        steps_of(writes.drop_last()).len() < t < steps_of(writes).len(),
    ensures
        bumps(steps_of(writes), t) % 2 == 1,
{
    let w = writes.last();
    let trace = steps_of(writes.drop_last());
    let n = trace.len() as int;
    let all = trace + store_steps(w);
    lemma_steps_unfold(writes);
    lemma_store_appended(trace, w);
    lemma_turns_keep_discipline(init, writes.drop_last());
    lemma_prefix(init, trace, store_steps(w), n);
    lemma_store_run(init, all, n, w, t - n - 1);
}

/// Before the last of a run of stores begins, the counter and the memory are
/// what the stores before it made them.
proof fn lemma_before_last_store(init: Seq<u8>, writes: Seq<Write>, t: int)
    requires
        writes.len() > 0,
        t <= steps_of(writes.drop_last()).len(),
    ensures
        bumps(steps_of(writes), t) == bumps(steps_of(writes.drop_last()), t),
        memory_at(init, steps_of(writes), t) == memory_at(init, steps_of(writes.drop_last()), t),
{
    lemma_steps_unfold(writes);
    lemma_prefix(init, steps_of(writes.drop_last()), store_steps(writes.last()), t);
}

/// Whenever the counter is even, the memory is as some number of whole stores
/// left it: the result is that number.
#[verifier::rlimit(50)]
pub proof fn lemma_even_is_between_stores(init: Seq<u8>, writes: Seq<Write>, t: int) -> (k: int)
    requires
        0 <= t <= steps_of(writes).len(),
        bumps(steps_of(writes), t) % 2 == 0,
    ensures
        0 <= k <= writes.len(),
        memory_at(init, steps_of(writes), t) == memory_after(init, writes.take(k)),
    decreases writes.len(),
{
    if writes.len() == 0 {
        assert(writes.take(0) =~= writes);
        0
    } else if t <= steps_of(writes.drop_last()).len() {
        lemma_before_last_store(init, writes, t);
        let k = lemma_even_is_between_stores(init, writes.drop_last(), t);
        assert(writes.take(k) =~= writes.drop_last().take(k));
        k
    } else {
        if t < steps_of(writes).len() {
            lemma_odd_inside_store(init, writes, t);
        }
        lemma_turns_keep_discipline(init, writes);
        assert(writes.take(writes.len() as int) =~= writes);
        writes.len() as int
    }
}

/// A read that is accepted fell between two steps of the writers. A reader
/// loads the counter after `t1` steps and again after `t3` steps. If the first
/// value is even and the second the same, and the counter did not go all the
/// way round in between, then no writer took a step between the two loads, and
/// none was in the middle of a store.
pub proof fn lemma_accepted_read_is_quiet(trace: Seq<WriterStep>, t1: int, t3: int)
    requires
        disciplined(trace),
        0 <= t1 <= t3 <= trace.len(),
        bumps(trace, t3) - bumps(trace, t1) < 0x1_0000_0000,
        accepted(counter_value(bumps(trace, t1)), counter_value(bumps(trace, t3))),
    ensures
        t1 == t3,
        bumps(trace, t1) % 2 == 0,
{
    let b1 = bumps(trace, t1);
    let b3 = bumps(trace, t3);
    lemma_bumps_monotone(trace, t1, t3);
    assert(b1 == b3 && b1 % 2 == 0) by (nonlinear_arith)
        requires
            b1 <= b3,
            b3 - b1 < 0x1_0000_0000,
            (b1 % 0x1_0000_0000) % 2 == 0,
            b3 % 0x1_0000_0000 == b1 % 0x1_0000_0000,
    ;
    if t1 < t3 {
        lemma_bumps_monotone(trace, t1, t1 + 1);
        lemma_bumps_monotone(trace, t1 + 1, t3);
        assert(bumps(trace, t1 + 1) == b1);
        assert(trace[t1] is Put);
    }
}

/// No tearing, in a memory whose steps happen one at a time. Writers store one
/// after another. A reader loads the counter after `t1` of their steps, copies
/// the bytes from `lo` on, byte `i` after `times[i]` steps, and loads the
/// counter again after `t3` steps. If it keeps the copy, then all of the copy
/// shows the memory as one and the same number of whole stores left it: the
/// state before a store or the state after it, and never a mix of the two.
/// The result is that number of stores.
pub proof fn lemma_accepted_read_is_whole(
    init: Seq<u8>,
    writes: Seq<Write>,
    t1: int,
    t3: int,
    times: Seq<int>,
    lo: int,
) -> (k: int)
    requires
        0 <= t1 <= t3 <= steps_of(writes).len(),
        forall|i: int| 0 <= i < times.len() ==> t1 <= #[trigger] times[i] <= t3,
        bumps(steps_of(writes), t3) - bumps(steps_of(writes), t1) < 0x1_0000_0000,
        accepted(
            counter_value(bumps(steps_of(writes), t1)),
            counter_value(bumps(steps_of(writes), t3)),
        ),
    ensures
        0 <= k <= writes.len(),
        forall|i: int|
            0 <= i < times.len() ==> memory_at(init, steps_of(writes), #[trigger] times[i])[lo
                + i] == memory_after(init, writes.take(k))[lo + i],
{
    let trace = steps_of(writes);
    lemma_turns_keep_discipline(init, writes);
    lemma_accepted_read_is_quiet(trace, t1, t3);
    let k = lemma_even_is_between_stores(init, writes, t1);
    assert forall|i: int| 0 <= i < times.len() implies memory_at(
        init,
        trace,
        #[trigger] times[i],
    )[lo + i] == memory_after(init, writes.take(k))[lo + i] by {
        assert(times[i] == t1);
    }
    k
}

} // verus!
