//! What an operation does when its thread runs alone.
//!
//! A thread that finds its lock free and is not disturbed takes its
//! operation from the first step to the last. What it leaves behind is what
//! the operation, taken as one indivisible act, does to the value the cell
//! held.
use vstd::prelude::*;
use crate::chunks::lemma_join_split;
use crate::chunks::split_spec;
use crate::induction::lemma_holder_reads_last;
use crate::induction::lemma_next_keeps_inv;
use crate::laws::lemma_rank_of_done;
use crate::model::CellState;
use crate::model::MAX_RANK;
use crate::model::Note;
use crate::model::Stage;
use crate::model::State;
use crate::model::Thread;
use crate::request::Outcome;
use crate::safety::cell_shaped;
use crate::safety::effect_ok;
use crate::safety::holder_ok;
use crate::safety::inv;
use crate::safety::lock_ok;
use crate::safety::memory_ok;
use crate::safety::reader_ok;
use crate::safety::thread_shaped;
use crate::safety::writer_on;
use crate::seq_lock::is_odd;
use crate::seq_lock::next_stamp;

verus! {

/// The state that the operation of thread `tid` leaves when it acts at
/// once on the last value of its cell: the thread has returned with what
/// the operation returns on that value; if the operation writes, the cell
/// holds the new value, which has entered the history as the thread's
/// own, and the lock has been released once more and has its next stamp;
/// if not, cell, history and lock are as they were.
pub open spec fn completed(s: State, tid: int) -> State {
    let th = s.threads[tid];
    let c = th.cell as int;
    let cell = s.cells[c];
    let slot = cell.slot();
    let r = th.request.resolution(cell.kind, s.history[c].last());
    let done = Thread { stage: Stage::Done { outcome: r.outcome }, ..th };
    let seen = if th.request.is_load() {
        s.releases[slot]
    } else {
        s.notes[tid].seen
    };
    match r.write {
        Some(new) => State {
            locks: s.locks.update(slot, next_stamp(s.locks[slot])),
            cells: s.cells.update(
                c,
                CellState { words: split_spec(new, cell.kind, cell.word), ..cell },
            ),
            threads: s.threads.update(tid, done),
            history: s.history.update(c, s.history[c].push(new)),
            authors: s.authors.update(c, s.authors[c].push(tid)),
            releases: s.releases.update(slot, s.releases[slot] + 1),
            owner: s.owner,
            notes: s.notes.update(
                tid,
                Note { at: s.history[c].len() as int, seen, ..s.notes[tid] },
            ),
        },
        None => State {
            threads: s.threads.update(tid, done),
            notes: s.notes.update(tid, Note { at: s.history[c].len() - 1, seen, ..s.notes[tid] }),
            ..s
        },
    }
}

/// A thread that is writing, and moves alone, writes the rest of the words
/// and releases the lock.
proof fn lemma_finish_writing(s: State, tid: int, fuel: nat)
    requires
        inv(s),
        0 <= tid < s.threads.len(),
        s.threads[tid].stage is Writing,
        fuel >= s.rank(tid),
    ensures
        ({
            let r = s.run_for(tid, fuel);
            let th = s.threads[tid];
            let c = th.cell as int;
            let cell = s.cells[c];
            let slot = cell.slot();
            &&& inv(r)
            &&& r.threads == s.threads.update(
                tid,
                Thread { stage: Stage::Done { outcome: th.stage->Writing_outcome }, ..th },
            )
            &&& r.locks == s.locks.update(slot, next_stamp(th.stage->Writing_previous))
            &&& r.releases == s.releases.update(slot, s.releases[slot] + 1)
            &&& r.owner == s.owner.update(slot, None)
            &&& r.cells == s.cells.update(
                c,
                CellState { words: split_spec(th.stage->Writing_new, cell.kind, cell.word), ..cell },
            )
            &&& r.history == s.history
            &&& r.authors == s.authors
            &&& r.notes == s.notes
        }),
    decreases fuel,
{
    let th = s.threads[tid];
    let c = th.cell as int;
    let cell = s.cells[c];
    let slot = cell.slot();
    let next = th.stage->Writing_next;
    let new = th.stage->Writing_new;
    assert(thread_shaped(s, tid));
    assert(cell_shaped(s, c));
    assert(holder_ok(s, tid));
    assert(memory_ok(s, c));
    assert(writer_on(s, c));
    lemma_rank_of_done(s, tid);
    lemma_next_keeps_inv(s, tid);
    let n = s.next(tid);
    assert(!s.blocked(tid));
    assert(s.run_for(tid, fuel) == n.run_for(tid, (fuel - 1) as nat));
    let target = CellState { words: split_spec(new, cell.kind, cell.word), ..cell };
    if next < cell.count() {
        lemma_finish_writing(n, tid, (fuel - 1) as nat);
        let r = n.run_for(tid, (fuel - 1) as nat);
        assert(r.threads =~= s.threads.update(
            tid,
            Thread { stage: Stage::Done { outcome: th.stage->Writing_outcome }, ..th },
        ));
        assert(r.cells =~= s.cells.update(c, target));
    } else {
        assert(n.run_for(tid, (fuel - 1) as nat) == n);
        assert(cell.words =~= split_spec(new, cell.kind, cell.word));
        assert(n.cells =~= s.cells.update(c, target));
    }
}

/// A thread that is reading without the lock, while the lock is free and
/// has not been released since the thread took its stamp, and that moves
/// alone, reads the rest of the words, finds the stamp as it was and
/// returns the value of the cell.
proof fn lemma_finish_reading(s: State, tid: int, fuel: nat)
    requires
        inv(s),
        0 <= tid < s.threads.len(),
        s.threads[tid].stage is Reading,
        s.owner[s.slot_of_thread(tid)] is None,
        s.notes[tid].seen == s.releases[s.slot_of_thread(tid)],
        fuel >= s.rank(tid),
    ensures
        ({
            let r = s.run_for(tid, fuel);
            let th = s.threads[tid];
            let h = s.history[th.cell as int];
            &&& inv(r)
            &&& r == State {
                threads: s.threads.update(
                    tid,
                    Thread { stage: Stage::Done { outcome: Outcome::Loaded(h.last()) }, ..th },
                ),
                notes: s.notes.update(tid, Note { at: h.len() - 1, ..s.notes[tid] }),
                ..s
            }
        }),
    decreases fuel,
{
    let th = s.threads[tid];
    let c = th.cell as int;
    let cell = s.cells[c];
    let slot = cell.slot();
    let next = th.stage->Reading_next;
    assert(thread_shaped(s, tid));
    assert(cell_shaped(s, c));
    assert(reader_ok(s, tid));
    assert(lock_ok(s, slot));
    lemma_rank_of_done(s, tid);
    lemma_next_keeps_inv(s, tid);
    let n = s.next(tid);
    assert(!s.blocked(tid));
    assert(s.run_for(tid, fuel) == n.run_for(tid, (fuel - 1) as nat));
    let h = s.history[c];
    let goal = State {
        threads: s.threads.update(
            tid,
            Thread { stage: Stage::Done { outcome: Outcome::Loaded(h.last()) }, ..th },
        ),
        notes: s.notes.update(tid, Note { at: h.len() - 1, ..s.notes[tid] }),
        ..s
    };
    if next < cell.count() {
        lemma_finish_reading(n, tid, (fuel - 1) as nat);
        let r = n.run_for(tid, (fuel - 1) as nat);
        assert(r.threads =~= goal.threads);
        assert(r.notes =~= goal.notes);
    } else {
        assert(n.threads[tid].stage is Done);
        assert(n.run_for(tid, (fuel - 1) as nat) == n);
        assert(effect_ok(n, tid));
        assert(n.threads =~= goal.threads);
        assert(n.notes =~= goal.notes);
    }
}

/// A thread that begins its operation while its lock is free, and moves
/// alone, ends it, and leaves what the operation does when it acts at
/// once.
pub proof fn lemma_run_alone(s: State, tid: int)
    requires
        inv(s),
        0 <= tid < s.threads.len(),
        s.threads[tid].stage is Start,
        !is_odd(s.locks[s.slot_of_thread(tid)]),
    ensures
        s.run(tid) == completed(s, tid),
        inv(s.run(tid)),
{
    let th = s.threads[tid];
    let c = th.cell as int;
    let cell = s.cells[c];
    let slot = cell.slot();
    let h = s.history[c];
    let goal = completed(s, tid);
    assert(thread_shaped(s, tid));
    assert(cell_shaped(s, c));
    assert(lock_ok(s, slot));
    assert(s.owner[slot] is None);
    lemma_rank_of_done(s, tid);
    lemma_next_keeps_inv(s, tid);
    let s1 = s.next(tid);
    assert(!s.blocked(tid));
    assert(s.run(tid) == s1.run_for(tid, (MAX_RANK - 1) as nat));
    if th.request.is_load() {
        lemma_rank_of_done(s1, tid);
        lemma_finish_reading(s1, tid, (MAX_RANK - 1) as nat);
        let r = s1.run_for(tid, (MAX_RANK - 1) as nat);
        assert(r.threads =~= goal.threads);
        assert(r.notes =~= goal.notes);
    } else {
        assert(s1.threads[tid].stage is Acquiring);
        assert(lock_ok(s1, slot));
        lemma_next_keeps_inv(s1, tid);
        let s2 = s1.next(tid);
        assert(!s1.blocked(tid));
        assert(s1.run_for(tid, (MAX_RANK - 1) as nat) == s2.run_for(tid, (MAX_RANK - 2) as nat));
        assert(s2.threads[tid].stage is Holding);
        lemma_holder_reads_last(s2, tid);
        lemma_next_keeps_inv(s2, tid);
        let s3 = s2.next(tid);
        assert(!s2.blocked(tid));
        assert(s2.run_for(tid, (MAX_RANK - 2) as nat) == s3.run_for(tid, (MAX_RANK - 3) as nat));
        let r = th.request.resolution(cell.kind, h.last());
        if r.write is Some {
            assert(s3.threads[tid].stage is Writing);
            lemma_rank_of_done(s3, tid);
            lemma_finish_writing(s3, tid, (MAX_RANK - 3) as nat);
            let end = s3.run_for(tid, (MAX_RANK - 3) as nat);
            assert(end.threads =~= goal.threads);
            assert(end.locks =~= goal.locks);
            assert(end.releases =~= goal.releases);
            assert(end.owner =~= goal.owner);
            assert(end.cells =~= goal.cells);
            assert(end.history =~= goal.history);
            assert(end.authors =~= goal.authors);
            assert(end.notes =~= goal.notes);
        } else {
            assert(s3.threads[tid].stage is Aborting);
            lemma_next_keeps_inv(s3, tid);
            let s4 = s3.next(tid);
            assert(!s3.blocked(tid));
            assert(s3.run_for(tid, (MAX_RANK - 3) as nat) == s4.run_for(tid, (MAX_RANK - 4) as nat));
            assert(s4.run_for(tid, (MAX_RANK - 4) as nat) == s4);
            assert(s4.threads =~= goal.threads);
            assert(s4.locks =~= goal.locks);
            assert(s4.owner =~= goal.owner);
            assert(s4.notes =~= goal.notes);
        }
    }
}

} // verus!
