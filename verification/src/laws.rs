//! What the protocol guarantees, in every state it can reach.
//!
//! Each law speaks of a state that meets the invariant, as every state of
//! a machine does, whatever the order in which its threads have moved.
use vstd::prelude::*;
use crate::chunks::lemma_join_split;
use crate::chunks::lemma_words_fit;
use crate::induction::lemma_next_keeps_inv;
use crate::model::MAX_RANK;
use crate::model::rank_of;
use crate::kind::IntKind;
use crate::model::Stage;
use crate::model::State;
use crate::model::Thread;
use crate::request::Outcome;
use crate::request::Request;
use crate::rmw::rmw_result;
use crate::safety::additive_ok;
use crate::safety::all_additive;
use crate::safety::authored_ok;
use crate::safety::cell_shaped;
use crate::safety::committed_sum;
use crate::safety::contribution_fn;
use crate::safety::delta;
use crate::safety::effect_ok;
use crate::safety::holder_ok;
use crate::safety::inv;
use crate::safety::lock_ok;
use crate::safety::memory_ok;
use crate::safety::outcome_of;
use crate::safety::read_at;
use crate::safety::recorded;
use crate::safety::thread_shaped;
use crate::safety::writer_on;
use crate::safety::wrote;
use crate::seq_lock::is_odd;
use crate::safety::reader_ok;
use crate::tally::lemma_sum_agrees;
use crate::tally::lemma_sum_not_negative;
use crate::tally::lemma_sum_update;
use crate::tally::sum_over;

verus! {

/// The amount that the operation of a thread adds to the cell `c`.
pub open spec fn delta_on(t: Thread, c: int, kind: IntKind) -> int {
    if t.cell == c {
        delta(t.request, kind)
    } else {
        0
    }
}

/// The function that `total_delta` sums.
pub open spec fn delta_fn(c: int, kind: IntKind) -> spec_fn(Thread) -> int {
    |t: Thread| delta_on(t, c, kind)
}

/// The sum of the amounts that the operations of all the threads add to
/// the cell `c`.
pub open spec fn total_delta(threads: Seq<Thread>, c: int, kind: IntKind) -> int {
    sum_over(threads, delta_fn(c, kind))
}

/// Whether the operation of every thread on the cell `c` has returned.
pub open spec fn all_done(threads: Seq<Thread>, c: int) -> bool {
    forall|t: int| 0 <= t < threads.len() && (#[trigger] threads[t]).cell == c ==> threads[t].stage is Done
}

/// No update is lost. Where every operation on a cell is a load, an
/// addition or a subtraction, then in whatever order the threads moved,
/// once all have returned the cell holds its first value plus the sum of
/// all that was added, less all that was subtracted, wrapped to the width
/// of its type.
pub proof fn lemma_no_update_is_lost(s: State, c: int)
    requires
        inv(s),
        0 <= c < s.cells.len(),
        all_additive(s.threads, c),
        all_done(s.threads, c),
    ensures
        s.cells[c].value() == s.cells[c].kind.encode(
            s.cells[c].kind.value(s.history[c][0]) + total_delta(s.threads, c, s.cells[c].kind),
        ),
{
    let kind = s.cells[c].kind;
    assert(additive_ok(s, c));
    assert(cell_shaped(s, c));
    assert(memory_ok(s, c));
    assert(lock_ok(s, s.cells[c].slot()));
    lemma_quiet_cell_holds_last(s, c);
    assert forall|i: int| 0 <= i < s.threads.len() implies contribution_fn(c, kind)(
        #[trigger] s.threads[i],
    ) == delta_fn(c, kind)(s.threads[i]) by {}
    lemma_sum_agrees(s.threads, contribution_fn(c, kind), delta_fn(c, kind));
}

/// At every moment, where every operation on a cell is a load, an addition
/// or a subtraction, the last value of the cell is its first value plus
/// the amounts of the operations that have taken effect so far.
pub proof fn lemma_sum_of_effects(s: State, c: int)
    requires
        inv(s),
        0 <= c < s.cells.len(),
        all_additive(s.threads, c),
    ensures
        s.history[c].last() == s.cells[c].kind.encode(
            s.cells[c].kind.value(s.history[c][0]) + committed_sum(s.threads, c, s.cells[c].kind),
        ),
{
    assert(additive_ok(s, c));
}

/// While no thread is part-way through writing a cell, its storage holds
/// the last value of its history.
pub proof fn lemma_quiet_cell_holds_last(s: State, c: int)
    requires
        inv(s),
        0 <= c < s.cells.len(),
        !writer_on(s, c),
    ensures
        s.cells[c].value() == s.history[c].last(),
{
    assert(cell_shaped(s, c));
    assert(memory_ok(s, c));
    lemma_join_split(s.history[c].last(), s.cells[c].kind, s.cells[c].word);
}

/// No read is torn. A load that has returned has returned one of the
/// values of the cell's history, whole: one that the cell held when the
/// load was asked, or one that was written since.
pub proof fn lemma_load_is_never_torn(s: State, tid: int)
    requires
        inv(s),
        0 <= tid < s.threads.len(),
        s.threads[tid].request is Load,
        s.threads[tid].stage is Done,
    ensures
        s.notes[tid].began <= s.notes[tid].at < s.history[s.threads[tid].cell as int].len(),
        s.threads[tid].stage->Done_outcome == Outcome::Loaded(
            s.history[s.threads[tid].cell as int][s.notes[tid].at],
        ),
{
    assert(effect_ok(s, tid));
}

/// Whether the thread `w` is the only one whose operation on the cell `c`
/// is not a load.
pub open spec fn only_writer(threads: Seq<Thread>, c: int, w: int) -> bool {
    forall|t: int|
        0 <= t < threads.len() && (#[trigger] threads[t]).cell == c && t != w ==> threads[t].request is Load
}

/// A load that races one store returns the value from before the store or
/// the value stored, and never a mixture of the two. Where a store is the
/// only operation on a cell that is not a load, every load that has
/// returned has returned the cell's first value or the value of the store.
pub proof fn lemma_load_racing_a_store(s: State, c: int, w: int, tid: int)
    requires
        inv(s),
        0 <= c < s.cells.len(),
        0 <= w < s.threads.len(),
        0 <= tid < s.threads.len(),
        s.threads[w].cell == c,
        s.threads[w].request is Store,
        only_writer(s.threads, c, w),
        s.threads[tid].cell == c,
        s.threads[tid].request is Load,
        s.threads[tid].stage is Done,
    ensures
        s.threads[tid].stage->Done_outcome == Outcome::Loaded(s.history[c][0])
            || s.threads[tid].stage->Done_outcome == Outcome::Loaded(
            s.threads[w].request->Store_val,
        ),
{
    let at = s.notes[tid].at;
    assert(effect_ok(s, tid));
    assert(authored_ok(s, c));
    if at >= 1 {
        let author = s.authors[c][at];
        assert(effect_ok(s, author));
        assert(author == w);
        assert(effect_ok(s, w));
    }
}

/// Every value of a cell's history, but the first, is what one thread's
/// operation made of the value before it; and no two operations made the
/// same entry.
pub proof fn lemma_history_is_serial(s: State, c: int, k: int)
    requires
        inv(s),
        0 <= c < s.cells.len(),
        1 <= k < s.history[c].len(),
    ensures
        ({
            let t = s.authors[c][k];
            &&& 0 <= t < s.threads.len()
            &&& s.threads[t].cell == c
            &&& s.threads[t].request.resolution(s.cells[c].kind, s.history[c][k - 1]).write == Some(
                s.history[c][k],
            )
            &&& outcome_of(s.threads[t].stage) == Some(
                s.threads[t].request.resolution(s.cells[c].kind, s.history[c][k - 1]).outcome,
            )
            &&& forall|u: int|
                0 <= u < s.threads.len() && s.threads[u].cell == c && u != t && (outcome_of(
                    s.threads[u].stage,
                ) matches Some(o) && wrote(o)) ==> #[trigger] s.notes[u].at != k
        }),
{
    let t = s.authors[c][k];
    assert(authored_ok(s, c));
    assert(effect_ok(s, t));
    assert forall|u: int|
        0 <= u < s.threads.len() && s.threads[u].cell == c && u != t && (outcome_of(
            s.threads[u].stage,
        ) matches Some(o) && wrote(o)) implies #[trigger] s.notes[u].at != k by {
        assert(effect_ok(s, u));
    }
}

/// A compare-exchange succeeds if and only if the value it finds is the
/// expected one. When it succeeds, the cell's next value is the new one and
/// the value found is returned; when it fails, it writes nothing and
/// returns the value found.
pub proof fn lemma_compare_exchange(s: State, tid: int)
    requires
        inv(s),
        0 <= tid < s.threads.len(),
        s.threads[tid].request is CompareExchange,
        outcome_of(s.threads[tid].stage) is Some,
    ensures
        ({
            let h = s.history[s.threads[tid].cell as int];
            let at = s.notes[tid].at;
            let outcome = outcome_of(s.threads[tid].stage).unwrap();
            let current = s.threads[tid].request->CompareExchange_current;
            let new = s.threads[tid].request->CompareExchange_new;
            &&& 0 <= at < h.len()
            &&& outcome is Exchanged || outcome is Mismatch
            &&& outcome is Exchanged ==> at >= 1 && h[at - 1] == current && h[at] == new && outcome
                == Outcome::Exchanged(current) && s.authors[s.threads[tid].cell as int][at] == tid
            &&& outcome is Mismatch ==> h[at] != current && outcome == Outcome::Mismatch(h[at])
        }),
{
    assert(effect_ok(s, tid));
}

/// A load that is asked after a store has taken effect, with no write to
/// the cell since, returns the value stored, whatever legal memory orders
/// the two were asked with.
pub proof fn lemma_store_then_load(s: State, w: int, r: int)
    requires
        inv(s),
        0 <= w < s.threads.len(),
        0 <= r < s.threads.len(),
        s.threads[w].cell == s.threads[r].cell,
        s.threads[w].request is Store,
        s.threads[r].request is Load,
        s.threads[w].stage is Done,
        s.threads[r].stage is Done,
        s.notes[w].at <= s.notes[r].began,
        s.notes[w].at == s.history[s.threads[w].cell as int].len() - 1,
    ensures
        s.threads[r].stage->Done_outcome == Outcome::Loaded(s.threads[w].request->Store_val),
{
    assert(effect_ok(s, w));
    assert(effect_ok(s, r));
}

/// Every step of a thread that is not blocked brings it nearer to the end
/// of its operation: no operation takes more than a fixed number of steps
/// of its own.
pub proof fn lemma_step_makes_progress(s: State, tid: int)
    requires
        inv(s),
        0 <= tid < s.threads.len(),
        !(s.threads[tid].stage is Done),
        !s.blocked(tid),
    ensures
        0 <= s.next(tid).rank(tid) < s.rank(tid) <= MAX_RANK,
{
    let c = s.threads[tid].cell as int;
    assert(thread_shaped(s, tid));
    assert(cell_shaped(s, c));
    lemma_words_fit(s.cells[c].kind, s.cells[c].word, 0);
    assert(s.cells[c].count() <= 4) by {
        if s.cells[c].word.bits() == 32 {
            assert(s.cells[c].count() == s.cells[c].kind.bits() / 32);
        } else {
            assert(s.cells[c].count() == s.cells[c].kind.bits() / 64);
        }
    }
}

/// A thread whose operation has not returned has steps left to make.
pub proof fn lemma_rank_of_done(s: State, tid: int)
    requires
        inv(s),
        0 <= tid < s.threads.len(),
    ensures
        0 <= s.rank(tid) <= MAX_RANK,
        s.rank(tid) == 0 <==> s.threads[tid].stage is Done,
{
    let c = s.threads[tid].cell as int;
    assert(thread_shaped(s, tid));
    assert(cell_shaped(s, c));
    assert(s.cells[c].count() <= 4) by {
        if s.cells[c].word.bits() == 32 {
            assert(s.cells[c].count() == s.cells[c].kind.bits() / 32);
        } else {
            assert(s.cells[c].count() == s.cells[c].kind.bits() / 64);
        }
    }
}

/// The function that `remaining` sums.
pub open spec fn rank_fn(s: State) -> spec_fn(Thread) -> int {
    |t: Thread| rank_of(t, s.cells[t.cell as int].count())
}

/// A bound on the number of steps that all the threads together have yet
/// to make, not counting those on which a thread finds its lock held.
pub open spec fn remaining(s: State) -> int {
    sum_over(s.threads, rank_fn(s))
}

/// Every run ends. Each step of a thread that is not blocked lowers the
/// bound on the steps that are left, by one at least; so however the
/// threads are scheduled, after that many steps of threads that can move,
/// every operation has returned.
pub proof fn lemma_every_run_ends(s: State, tid: int)
    requires
        inv(s),
        0 <= tid < s.threads.len(),
        !(s.threads[tid].stage is Done),
        !s.blocked(tid),
    ensures
        0 <= remaining(s.next(tid)) < remaining(s),
{
    let n = s.next(tid);
    lemma_next_keeps_inv(s, tid);
    lemma_step_makes_progress(s, tid);
    assert(thread_shaped(s, tid));
    assert(n.threads =~= s.threads.update(tid, n.threads[tid]));
    assert forall|i: int| 0 <= i < n.threads.len() implies rank_fn(n)(#[trigger] n.threads[i])
        == rank_fn(s)(n.threads[i]) by {
        assert(thread_shaped(n, i));
        assert(thread_shaped(s, i));
        assert(cell_shaped(s, s.threads[i].cell as int));
        assert(cell_shaped(n, s.threads[i].cell as int));
    }
    lemma_sum_agrees(n.threads, rank_fn(n), rank_fn(s));
    lemma_sum_update(s.threads, rank_fn(s), tid, n.threads[tid]);
    lemma_remaining_is_not_negative(n);
}

/// The bound on the steps that are left is never negative.
pub proof fn lemma_remaining_is_not_negative(s: State)
    requires
        inv(s),
    ensures
        remaining(s) >= 0,
{
    assert forall|i: int| 0 <= i < s.threads.len() implies rank_fn(s)(#[trigger] s.threads[i])
        >= 0 by {
        lemma_rank_of_done(s, i);
    }
    lemma_sum_not_negative(s.threads, rank_fn(s));
}

/// A lock that is given back without a write has the stamp it had, so that
/// a reader who took that stamp is not disturbed: what it reads still
/// counts.
pub proof fn lemma_abort_does_not_disturb(s: State, tid: int, reader: int)
    requires
        inv(s),
        0 <= tid < s.threads.len(),
        0 <= reader < s.threads.len(),
        s.threads[tid].stage is Aborting,
        s.threads[reader].stage is Reading,
        s.slot_of_thread(reader) == s.slot_of_thread(tid),
        s.notes[reader].seen == s.releases[s.slot_of_thread(tid)],
    ensures
        s.next(tid).locks[s.slot_of_thread(reader)] == s.threads[reader].stage->Reading_stamp,
        s.next(tid).threads[reader] == s.threads[reader],
        s.next(tid).releases == s.releases,
        s.next(tid).cell_of(reader) == s.cell_of(reader),
{
    assert(thread_shaped(s, tid));
    assert(thread_shaped(s, reader));
    assert(holder_ok(s, tid));
    assert(lock_ok(s, s.slot_of_thread(tid)));
    assert(reader_ok(s, reader));
}

/// A thread is blocked only by a thread that holds the lock of its own
/// slot, and that thread can move: the threads never all wait for each
/// other.
pub proof fn lemma_blocked_by_own_slot(s: State, tid: int)
    requires
        inv(s),
        0 <= tid < s.threads.len(),
        s.blocked(tid),
    ensures
        s.owner[s.slot_of_thread(tid)] matches Some(holder) && holder != tid && 0 <= holder
            < s.threads.len() && s.slot_of_thread(holder) == s.slot_of_thread(tid)
            && s.threads[holder].stage.holds_lock() && !s.blocked(holder) && !(
        s.threads[holder].stage is Done),
{
    assert(thread_shaped(s, tid));
    assert(lock_ok(s, s.slot_of_thread(tid)));
}

/// Every operation takes effect at once. The outcome that a thread
/// carries is what its operation returns at one point of the cell's
/// history, and the value it read there is the one the cell held when the
/// operation was asked, or a later one.
pub proof fn lemma_outcome_is_atomic(s: State, tid: int)
    requires
        inv(s),
        0 <= tid < s.threads.len(),
        outcome_of(s.threads[tid].stage) is Some,
    ensures
        ({
            let th = s.threads[tid];
            let c = th.cell as int;
            let outcome = outcome_of(th.stage).unwrap();
            let at = s.notes[tid].at;
            &&& 0 <= c < s.cells.len()
            &&& 0 <= s.notes[tid].began <= read_at(outcome, at) <= at < s.history[c].len()
            &&& recorded(th.request, s.cells[c].kind, s.history[c], at, outcome)
        }),
{
    assert(thread_shaped(s, tid));
    assert(effect_ok(s, tid));
}

/// Threads under different locks do not interfere. A step of one leaves
/// the other as it was, no more and no less blocked than before, and leaves
/// alone the lock, the cell and the history that the other works with; so
/// that the other's next step does to it what it would have done anyway.
pub proof fn lemma_different_slots_do_not_interfere(s: State, a: int, b: int)
    requires
        inv(s),
        0 <= a < s.threads.len(),
        0 <= b < s.threads.len(),
        s.slot_of_thread(a) != s.slot_of_thread(b),
    ensures
        s.next(a).threads[b] == s.threads[b],
        s.next(a).blocked(b) == s.blocked(b),
        s.next(a).locks[s.slot_of_thread(b)] == s.locks[s.slot_of_thread(b)],
        s.next(a).cell_of(b) == s.cell_of(b),
        s.next(a).history[s.threads[b].cell as int] == s.history[s.threads[b].cell as int],
        s.next(a).next(b).threads[b] == s.next(b).threads[b],
{
    assert(thread_shaped(s, a));
    assert(thread_shaped(s, b));
    assert(cell_shaped(s, s.threads[a].cell as int));
    assert(lock_ok(s, s.slot_of_thread(a)));
    assert(lock_ok(s, s.slot_of_thread(b)));
}

} // verus!
