//! Every step of every thread keeps the invariant.
use vstd::prelude::*;
use crate::chunks::join_spec;
use crate::chunks::lemma_join_split;
use crate::chunks::split_spec;
use crate::chunks::word_at;
use crate::kind::IntKind;
use crate::model::CellState;
use crate::model::Note;
use crate::model::Stage;
use crate::model::State;
use crate::model::Thread;
use crate::kind::lemma_encode_absorbs;
use crate::request::Outcome;
use crate::request::Request;
use crate::rmw::RmwOp;
use crate::rmw::lemma_rmw_holds;
use crate::rmw::rmw_result;
use crate::chunks::WordSize;
use crate::kind::lemma_value_in_range;
use crate::tally::lemma_sum_of_flags;
use crate::tally::lemma_sum_of_zeros;
use crate::tally::lemma_sum_push;
use crate::safety::MAX_THREADS;
use crate::safety::additive_ok;
use crate::safety::authored_ok;
use crate::safety::wrote;
use crate::safety::all_additive;
use crate::safety::cell_shaped;
use crate::safety::committed_sum;
use crate::safety::contribution;
use crate::safety::contribution_fn;
use crate::safety::delta;
use crate::safety::done_count;
use crate::safety::done_flag;
use crate::safety::done_fn;
use crate::safety::effect_ok;
use crate::safety::holder_ok;
use crate::safety::inv;
use crate::safety::is_additive;
use crate::safety::lock_ok;
use crate::safety::memory_ok;
use crate::safety::outcome_of;
use crate::safety::previous_of;
use crate::safety::read_at;
use crate::safety::reader_ok;
use crate::safety::recorded;
use crate::safety::shaped;
use crate::safety::thread_shaped;
use crate::safety::writer_on;
use crate::seq_lock::LOCKED;
use crate::seq_lock::is_odd;
use crate::seq_lock::next_stamp;
use crate::seq_lock::stamp_of;
use crate::table::LEN;
use crate::tally::lemma_sum_update;

verus! {

/// Whether `n` differs from `s` in nothing that is fixed once a cell or a
/// thread exists: the cells' types, places and sizes, and each thread's
/// cell and operation.
pub open spec fn same_frame(s: State, n: State) -> bool {
    &&& n.cells.len() == s.cells.len()
    &&& n.threads.len() == s.threads.len()
    &&& n.notes.len() == s.notes.len()
    &&& n.history.len() == s.history.len()
    &&& n.authors.len() == s.authors.len()
    &&& n.locks.len() == s.locks.len()
    &&& n.releases.len() == s.releases.len()
    &&& n.owner.len() == s.owner.len()
    &&& forall|c: int|
        0 <= c < s.cells.len() ==> {
            &&& (#[trigger] n.cells[c]).kind == s.cells[c].kind
            &&& n.cells[c].word == s.cells[c].word
            &&& n.cells[c].addr == s.cells[c].addr
            &&& n.cells[c].words.len() == s.cells[c].words.len()
        }
    &&& forall|t: int|
        0 <= t < s.threads.len() ==> {
            &&& (#[trigger] n.threads[t]).cell == s.threads[t].cell
            &&& n.threads[t].request == s.threads[t].request
            &&& n.notes[t].began == s.notes[t].began
        }
}

/// A step that moves one thread from a stage that is not the last to
/// another does not lower the number of threads that are done.
pub proof fn lemma_done_count_grows(s: State, n: State, tid: int)
    requires
        0 <= tid < s.threads.len(),
        n.threads == s.threads.update(tid, n.threads[tid]),
        !(s.threads[tid].stage is Done),
    ensures
        done_count(n.threads) == done_count(s.threads) + done_flag(n.threads[tid]),
        done_count(n.threads) >= done_count(s.threads),
{
    lemma_sum_update(s.threads, done_fn(), tid, n.threads[tid]);
}

/// A step that keeps a thread's cell and operation, and what the thread
/// has added to the cell `c`, keeps the sum of what was added to `c`.
pub proof fn lemma_committed_sum_same(s: State, n: State, tid: int, c: int)
    requires
        0 <= tid < s.threads.len(),
        n.threads == s.threads.update(tid, n.threads[tid]),
        n.threads[tid].cell == s.threads[tid].cell,
        n.threads[tid].request == s.threads[tid].request,
        contribution(n.threads[tid], c, s.cells[c].kind) == contribution(
            s.threads[tid],
            c,
            s.cells[c].kind,
        ),
    ensures
        committed_sum(n.threads, c, s.cells[c].kind) == committed_sum(s.threads, c, s.cells[c].kind),
        all_additive(n.threads, c) == all_additive(s.threads, c),
{
    let kind = s.cells[c].kind;
    lemma_sum_update(s.threads, contribution_fn(c, kind), tid, n.threads[tid]);
    if all_additive(s.threads, c) {
        assert forall|t: int| 0 <= t < n.threads.len() && (#[trigger] n.threads[t]).cell == c implies is_additive(
            n.threads[t].request,
        ) by {
            assert(s.threads[t].cell == c);
        }
    }
    if all_additive(n.threads, c) {
        assert forall|t: int| 0 <= t < s.threads.len() && (#[trigger] s.threads[t]).cell == c implies is_additive(
            s.threads[t].request,
        ) by {
            assert(n.threads[t].cell == c);
        }
    }
}

/// The state with no cell and no thread meets the invariant.
pub proof fn lemma_empty()
    ensures
        inv(State::empty()),
{
    let s = State::empty();
    assert forall|slot: int| 0 <= slot < LEN implies #[trigger] lock_ok(s, slot) by {
        assert(s.threads.len() == 0);
        assert(done_count(s.threads) == 0);
    }
}

/// One more cell keeps the invariant.
pub proof fn lemma_with_cell(s: State, kind: IntKind, word: WordSize, addr: usize, val: u128)
    requires
        inv(s),
        kind.holds(val),
    ensures
        inv(s.with_cell(kind, word, addr, val)),
{
    let n = s.with_cell(kind, word, addr, val);
    let fresh = s.cells.len() as int;
    assert forall|c: int| 0 <= c < n.cells.len() implies #[trigger] cell_shaped(n, c) by {
        if c < fresh {
            assert(cell_shaped(s, c));
        }
    }
    assert forall|t: int| 0 <= t < n.threads.len() implies #[trigger] thread_shaped(n, t) by {
        assert(thread_shaped(s, t));
    }
    assert forall|k: int| 0 <= k < LEN implies #[trigger] lock_ok(n, k) by {
        assert(lock_ok(s, k));
        if s.owner[k] is Some {
            assert(thread_shaped(s, s.owner[k].unwrap()));
        }
    }
    assert forall|t: int| 0 <= t < n.threads.len() implies #[trigger] holder_ok(n, t) by {
        assert(holder_ok(s, t));
        assert(thread_shaped(s, t));
    }
    assert forall|c: int| 0 <= c < n.cells.len() implies #[trigger] memory_ok(n, c) by {
        let slot = n.cells[c].slot();
        assert(lock_ok(s, slot));
        if s.owner[slot] is Some {
            assert(thread_shaped(s, s.owner[slot].unwrap()));
        }
        if c < fresh {
            assert(memory_ok(s, c));
            assert(writer_on(n, c) == writer_on(s, c));
        } else {
            assert(!writer_on(n, c));
        }
    }
    assert forall|t: int| 0 <= t < n.threads.len() implies #[trigger] reader_ok(n, t) by {
        assert(reader_ok(s, t));
        assert(thread_shaped(s, t));
        let c = s.threads[t].cell as int;
        assert(writer_on(n, c) == writer_on(s, c));
    }
    assert forall|t: int| 0 <= t < n.threads.len() implies #[trigger] effect_ok(n, t) by {
        assert(effect_ok(s, t));
        assert(thread_shaped(s, t));
    }
    assert forall|c: int| 0 <= c < n.cells.len() implies #[trigger] additive_ok(n, c) by {
        if c < fresh {
            assert(additive_ok(s, c));
        } else {
            assert forall|i: int| 0 <= i < n.threads.len() implies contribution_fn(c, kind)(
                #[trigger] n.threads[i],
            ) == 0 by {
                assert(thread_shaped(s, i));
            }
            lemma_sum_of_zeros(n.threads, contribution_fn(c, kind));
            lemma_value_in_range(kind, val);
        }
    }
    assert forall|c: int| 0 <= c < n.cells.len() implies #[trigger] authored_ok(n, c) by {
        if c < fresh {
            assert(authored_ok(s, c));
        }
    }
}

/// One more thread, with a legal operation on a cell that exists, keeps
/// the invariant.
pub proof fn lemma_with_thread(s: State, cell: usize, request: Request)
    requires
        inv(s),
        cell < s.cells.len(),
        s.threads.len() < MAX_THREADS,
        request.order_allowed(),
        request.operands_hold(s.cells[cell as int].kind),
    ensures
        inv(s.with_thread(cell, request)),
{
    let n = s.with_thread(cell, request);
    let fresh = s.threads.len() as int;
    assert(cell_shaped(s, cell as int));
    lemma_sum_push(s.threads, done_fn(), n.threads[fresh]);
    assert forall|c: int| 0 <= c < n.cells.len() implies #[trigger] cell_shaped(n, c) by {
        assert(cell_shaped(s, c));
    }
    assert forall|t: int| 0 <= t < n.threads.len() implies #[trigger] thread_shaped(n, t) by {
        if t < fresh {
            assert(thread_shaped(s, t));
        }
    }
    assert forall|k: int| 0 <= k < LEN implies #[trigger] lock_ok(n, k) by {
        assert(lock_ok(s, k));
    }
    assert forall|t: int| 0 <= t < n.threads.len() implies #[trigger] holder_ok(n, t) by {
        if t < fresh {
            assert(holder_ok(s, t));
        }
    }
    assert forall|c: int| 0 <= c < n.cells.len() implies #[trigger] memory_ok(n, c) by {
        assert(memory_ok(s, c));
        assert(lock_ok(s, s.cells[c].slot()));
        assert(writer_on(n, c) == writer_on(s, c));
    }
    assert forall|t: int| 0 <= t < n.threads.len() implies #[trigger] reader_ok(n, t) by {
        if t < fresh {
            assert(reader_ok(s, t));
            assert(thread_shaped(s, t));
            let c = s.threads[t].cell as int;
            assert(lock_ok(s, s.cells[c].slot()));
            assert(writer_on(n, c) == writer_on(s, c));
        }
    }
    assert forall|t: int| 0 <= t < n.threads.len() implies #[trigger] effect_ok(n, t) by {
        if t < fresh {
            assert(effect_ok(s, t));
        }
    }
    assert forall|c: int| 0 <= c < n.cells.len() implies #[trigger] additive_ok(n, c) by {
        assert(additive_ok(s, c));
        let kind = s.cells[c].kind;
        lemma_sum_push(s.threads, contribution_fn(c, kind), n.threads[fresh]);
        if all_additive(n.threads, c) {
            assert forall|t: int| 0 <= t < s.threads.len() && (#[trigger] s.threads[t]).cell == c implies is_additive(
                s.threads[t].request,
            ) by {
                assert(n.threads[t].cell == c);
            }
        }
    }
    assert forall|c: int| 0 <= c < n.cells.len() implies #[trigger] authored_ok(n, c) by {
        assert(authored_ok(s, c));
    }
}

/// The first step keeps the invariant.
pub proof fn lemma_start(s: State, tid: int)
    requires
        inv(s),
        0 <= tid < s.threads.len(),
        s.threads[tid].stage is Start,
    ensures
        inv(s.step_start(tid)),
{
    let n = s.step_start(tid);
    let slot = s.slot_of_thread(tid);
    assert(thread_shaped(s, tid));
    assert(lock_ok(s, slot));
    assert(same_frame(s, n));
    lemma_done_count_grows(s, n, tid);
    assert forall|c: int| 0 <= c < n.cells.len() implies #[trigger] cell_shaped(n, c) by {
        assert(cell_shaped(s, c));
    }
    assert forall|t: int| 0 <= t < n.threads.len() implies #[trigger] thread_shaped(n, t) by {
        assert(thread_shaped(s, t));
    }
    assert forall|k: int| 0 <= k < LEN implies #[trigger] lock_ok(n, k) by {
        assert(lock_ok(s, k));
        if s.owner[k] is Some {
            let o = s.owner[k].unwrap();
            assert(o != tid);
        }
    }
    assert forall|t: int| 0 <= t < n.threads.len() implies #[trigger] holder_ok(n, t) by {
        assert(holder_ok(s, t));
    }
    assert forall|c: int| 0 <= c < n.cells.len() implies #[trigger] memory_ok(n, c) by {
        assert(memory_ok(s, c));
        assert(lock_ok(s, s.cells[c].slot()));
        assert(writer_on(n, c) == writer_on(s, c));
    }
    assert forall|t: int| 0 <= t < n.threads.len() implies #[trigger] reader_ok(n, t) by {
        assert(reader_ok(s, t));
        let c = s.threads[t].cell as int;
        assert(thread_shaped(s, t));
        assert(lock_ok(s, s.cells[c].slot()));
        assert(writer_on(n, c) == writer_on(s, c));
        if t == tid && n.threads[tid].stage is Reading {
            let cell = s.cells[c];
            assert(split_spec(s.history[c].last(), cell.kind, cell.word).take(0) =~= Seq::<u64>::empty());
        }
    }
    assert forall|t: int| 0 <= t < n.threads.len() implies #[trigger] effect_ok(n, t) by {
        assert(effect_ok(s, t));
    }
    assert forall|c: int| 0 <= c < n.cells.len() implies #[trigger] additive_ok(n, c) by {
        assert(additive_ok(s, c));
        lemma_committed_sum_same(s, n, tid, c);
    }
    assert forall|c: int| 0 <= c < n.cells.len() implies #[trigger] authored_ok(n, c) by {
        assert(authored_ok(s, c));
        assert forall|k: int| 1 <= k < n.history[c].len() implies {
            let t = #[trigger] n.authors[c][k];
            &&& 0 <= t < n.threads.len()
            &&& n.threads[t].cell == c
            &&& outcome_of(n.threads[t].stage) matches Some(outcome) && wrote(outcome)
            &&& n.notes[t].at == k
        } by {
            if k < s.history[c].len() {
                let t = s.authors[c][k];
                assert(effect_ok(s, t));
                assert(effect_ok(s, tid));
            }
        }
    }
}

/// A step of an optimistic read keeps the invariant.
pub proof fn lemma_reading(s: State, tid: int)
    requires
        inv(s),
        0 <= tid < s.threads.len(),
        s.threads[tid].stage is Reading,
    ensures
        inv(s.next(tid)),
{
    let n = s.next(tid);
    let c0 = s.threads[tid].cell as int;
    let cell0 = s.cells[c0];
    let slot = s.slot_of_thread(tid);
    let stamp = s.threads[tid].stage->Reading_stamp;
    let next = s.threads[tid].stage->Reading_next;
    let acc = s.threads[tid].stage->Reading_acc;
    assert(thread_shaped(s, tid));
    assert(cell_shaped(s, c0));
    assert(reader_ok(s, tid));
    assert(lock_ok(s, slot));
    assert(memory_ok(s, c0));
    assert(same_frame(s, n));
    lemma_done_count_grows(s, n, tid);
    assert forall|c: int| 0 <= c < n.cells.len() implies #[trigger] cell_shaped(n, c) by {
        assert(cell_shaped(s, c));
    }
    assert forall|t: int| 0 <= t < n.threads.len() implies #[trigger] thread_shaped(n, t) by {
        assert(thread_shaped(s, t));
    }
    assert forall|k: int| 0 <= k < LEN implies #[trigger] lock_ok(n, k) by {
        assert(lock_ok(s, k));
        if s.owner[k] is Some {
            let o = s.owner[k].unwrap();
            assert(o != tid);
        }
    }
    assert forall|t: int| 0 <= t < n.threads.len() implies #[trigger] holder_ok(n, t) by {
        assert(holder_ok(s, t));
    }
    assert forall|c: int| 0 <= c < n.cells.len() implies #[trigger] memory_ok(n, c) by {
        assert(memory_ok(s, c));
        assert(lock_ok(s, s.cells[c].slot()));
        assert(writer_on(n, c) == writer_on(s, c));
    }
    assert forall|t: int| 0 <= t < n.threads.len() implies #[trigger] reader_ok(n, t) by {
        assert(reader_ok(s, t));
        let c = s.threads[t].cell as int;
        assert(thread_shaped(s, t));
        assert(lock_ok(s, s.cells[c].slot()));
        assert(writer_on(n, c) == writer_on(s, c));
        if t == tid && next < cell0.count() {
            if s.notes[t].seen == s.releases[slot] && !writer_on(s, c0) {
                let words = split_spec(s.history[c0].last(), cell0.kind, cell0.word);
                let longer = words.take(next + 1);
                assert(cell0.words == words);
                assert(longer.drop_last() =~= words.take(next as int));
                assert(longer.last() == words[next as int]);
                assert(longer.len() - 1 == next);
            }
        }
    }
    assert forall|t: int| 0 <= t < n.threads.len() implies #[trigger] effect_ok(n, t) by {
        assert(effect_ok(s, t));
        if t == tid && n.threads[tid].stage is Done {
            let h = s.history[c0];
            let words = split_spec(h.last(), cell0.kind, cell0.word);
            assert(s.owner[slot] is None);
            assert(!writer_on(s, c0));
            assert(words.take(next as int) =~= words);
            lemma_join_split(h.last(), cell0.kind, cell0.word);
            assert(acc == h.last());
        }
    }
    assert forall|c: int| 0 <= c < n.cells.len() implies #[trigger] additive_ok(n, c) by {
        assert(additive_ok(s, c));
        lemma_committed_sum_same(s, n, tid, c);
    }
    assert forall|c: int| 0 <= c < n.cells.len() implies #[trigger] authored_ok(n, c) by {
        assert(authored_ok(s, c));
        assert forall|k: int| 1 <= k < n.history[c].len() implies {
            let t = #[trigger] n.authors[c][k];
            &&& 0 <= t < n.threads.len()
            &&& n.threads[t].cell == c
            &&& outcome_of(n.threads[t].stage) matches Some(outcome) && wrote(outcome)
            &&& n.notes[t].at == k
        } by {
            if k < s.history[c].len() {
                let t = s.authors[c][k];
                assert(effect_ok(s, t));
                assert(effect_ok(s, tid));
            }
        }
    }
}

/// An attempt at the lock keeps the invariant.
pub proof fn lemma_acquiring(s: State, tid: int)
    requires
        inv(s),
        0 <= tid < s.threads.len(),
        s.threads[tid].stage is Acquiring,
    ensures
        inv(s.next(tid)),
{
    let n = s.next(tid);
    let slot = s.slot_of_thread(tid);
    assert(thread_shaped(s, tid));
    assert(lock_ok(s, slot));
    assert(holder_ok(s, tid));
    assert(n.threads =~= s.threads.update(tid, n.threads[tid]));
    if is_odd(s.locks[slot]) {
        assert(n.locks =~= s.locks);
    }
    assert(same_frame(s, n));
    lemma_done_count_grows(s, n, tid);
    assert forall|c: int| 0 <= c < n.cells.len() implies #[trigger] cell_shaped(n, c) by {
        assert(cell_shaped(s, c));
    }
    assert forall|t: int| 0 <= t < n.threads.len() implies #[trigger] thread_shaped(n, t) by {
        assert(thread_shaped(s, t));
    }
    assert forall|k: int| 0 <= k < LEN implies #[trigger] lock_ok(n, k) by {
        assert(lock_ok(s, k));
        if s.owner[k] is Some {
            let o = s.owner[k].unwrap();
            assert(o != tid);
        }
    }
    assert forall|t: int| 0 <= t < n.threads.len() implies #[trigger] holder_ok(n, t) by {
        assert(holder_ok(s, t));
    }
    assert forall|c: int| 0 <= c < n.cells.len() implies #[trigger] memory_ok(n, c) by {
        assert(memory_ok(s, c));
        assert(lock_ok(s, s.cells[c].slot()));
        assert(writer_on(n, c) == writer_on(s, c));
    }
    assert forall|t: int| 0 <= t < n.threads.len() implies #[trigger] reader_ok(n, t) by {
        assert(reader_ok(s, t));
        let c = s.threads[t].cell as int;
        assert(thread_shaped(s, t));
        assert(lock_ok(s, s.cells[c].slot()));
        assert(writer_on(n, c) == writer_on(s, c));
    }
    assert forall|t: int| 0 <= t < n.threads.len() implies #[trigger] effect_ok(n, t) by {
        assert(effect_ok(s, t));
    }
    assert forall|c: int| 0 <= c < n.cells.len() implies #[trigger] additive_ok(n, c) by {
        assert(additive_ok(s, c));
        lemma_committed_sum_same(s, n, tid, c);
    }
    assert forall|c: int| 0 <= c < n.cells.len() implies #[trigger] authored_ok(n, c) by {
        assert(authored_ok(s, c));
        assert forall|k: int| 1 <= k < n.history[c].len() implies {
            let t = #[trigger] n.authors[c][k];
            &&& 0 <= t < n.threads.len()
            &&& n.threads[t].cell == c
            &&& outcome_of(n.threads[t].stage) matches Some(outcome) && wrote(outcome)
            &&& n.notes[t].at == k
        } by {
            if k < s.history[c].len() {
                let t = s.authors[c][k];
                assert(effect_ok(s, t));
                assert(effect_ok(s, tid));
            }
        }
    }
}

/// What a thread reads under the lock is the last value of the cell's
/// history.
pub proof fn lemma_holder_reads_last(s: State, tid: int)
    requires
        inv(s),
        0 <= tid < s.threads.len(),
        s.threads[tid].stage is Holding,
    ensures
        s.cell_of(tid).value() == s.history[s.threads[tid].cell as int].last(),
        s.cell_of(tid).kind.holds(s.cell_of(tid).value()),
{
    let c = s.threads[tid].cell as int;
    let cell = s.cells[c];
    assert(thread_shaped(s, tid));
    assert(cell_shaped(s, c));
    assert(holder_ok(s, tid));
    assert(memory_ok(s, c));
    assert(!writer_on(s, c));
    lemma_join_split(s.history[c].last(), cell.kind, cell.word);
}

/// What an operation decides to write is a pattern of the cell's type.
pub proof fn lemma_resolution_holds(request: Request, kind: IntKind, cur: u128)
    requires
        kind.holds(cur),
        request.operands_hold(kind),
    ensures
        request.resolution(kind, cur).write matches Some(new) ==> kind.holds(new),
{
    if let Request::Rmw { op, val, .. } = request {
        lemma_rmw_holds(kind, op, cur, val);
    }
}

/// The step under the lock that reads and decides keeps the invariant.
pub proof fn lemma_holding(s: State, tid: int)
    requires
        inv(s),
        0 <= tid < s.threads.len(),
        s.threads[tid].stage is Holding,
    ensures
        inv(s.next(tid)),
{
    let n = s.next(tid);
    let c0 = s.threads[tid].cell as int;
    let cell0 = s.cells[c0];
    let slot = s.slot_of_thread(tid);
    let h = s.history[c0];
    let cur = cell0.value();
    let request = s.threads[tid].request;
    let r = request.resolution(cell0.kind, cur);
    assert(thread_shaped(s, tid));
    assert(cell_shaped(s, c0));
    assert(lock_ok(s, slot));
    assert(holder_ok(s, tid));
    assert(memory_ok(s, c0));
    lemma_holder_reads_last(s, tid);
    lemma_resolution_holds(request, cell0.kind, cur);
    assert(same_frame(s, n));
    lemma_done_count_grows(s, n, tid);
    assert forall|c: int| 0 <= c < n.cells.len() implies #[trigger] cell_shaped(n, c) by {
        assert(cell_shaped(s, c));
    }
    assert forall|t: int| 0 <= t < n.threads.len() implies #[trigger] thread_shaped(n, t) by {
        assert(thread_shaped(s, t));
    }
    assert forall|k: int| 0 <= k < LEN implies #[trigger] lock_ok(n, k) by {
        assert(lock_ok(s, k));
    }
    assert forall|t: int| 0 <= t < n.threads.len() implies #[trigger] holder_ok(n, t) by {
        assert(holder_ok(s, t));
    }
    assert forall|c: int| 0 <= c < n.cells.len() implies #[trigger] memory_ok(n, c) by {
        assert(memory_ok(s, c));
        assert(lock_ok(s, s.cells[c].slot()));
        if c != c0 {
            assert(writer_on(n, c) == writer_on(s, c));
        }
    }
    assert forall|t: int| 0 <= t < n.threads.len() implies #[trigger] reader_ok(n, t) by {
        assert(reader_ok(s, t));
        let c = s.threads[t].cell as int;
        assert(thread_shaped(s, t));
        assert(lock_ok(s, s.cells[c].slot()));
        if c != c0 {
            assert(writer_on(n, c) == writer_on(s, c));
        }
    }
    assert forall|t: int| 0 <= t < n.threads.len() implies #[trigger] effect_ok(n, t) by {
        assert(effect_ok(s, t));
        assert(thread_shaped(s, t));
        assert(holder_ok(s, t));
        assert(authored_ok(s, s.threads[t].cell as int));
    }
    assert forall|c: int| 0 <= c < n.cells.len() implies #[trigger] additive_ok(n, c) by {
        assert(additive_ok(s, c));
        let kind = s.cells[c].kind;
        if c == c0 && r.write is Some {
            lemma_sum_update(s.threads, contribution_fn(c, kind), tid, n.threads[tid]);
            if all_additive(n.threads, c) {
                assert(n.threads[tid].cell == c);
                assert(is_additive(request));
                assert forall|t: int| 0 <= t < s.threads.len() && (#[trigger] s.threads[t]).cell == c implies is_additive(
                    s.threads[t].request,
                ) by {
                    assert(n.threads[t].cell == c);
                }
                let total = kind.value(h[0]) + committed_sum(s.threads, c, kind);
                lemma_encode_absorbs(kind, total, delta(request, kind));
            }
        } else {
            lemma_committed_sum_same(s, n, tid, c);
        }
    }
    assert forall|c: int| 0 <= c < n.cells.len() implies #[trigger] authored_ok(n, c) by {
        assert(authored_ok(s, c));
        assert forall|k: int| 1 <= k < n.history[c].len() implies {
            let t = #[trigger] n.authors[c][k];
            &&& 0 <= t < n.threads.len()
            &&& n.threads[t].cell == c
            &&& outcome_of(n.threads[t].stage) matches Some(outcome) && wrote(outcome)
            &&& n.notes[t].at == k
        } by {
            if k < s.history[c].len() {
                let t = s.authors[c][k];
                assert(effect_ok(s, t));
                assert(effect_ok(s, tid));
            }
        }
    }
}

/// A step of a write keeps the invariant.
pub proof fn lemma_writing(s: State, tid: int)
    requires
        inv(s),
        0 <= tid < s.threads.len(),
        s.threads[tid].stage is Writing,
    ensures
        inv(s.next(tid)),
{
    let n = s.next(tid);
    let c0 = s.threads[tid].cell as int;
    let cell0 = s.cells[c0];
    let slot = s.slot_of_thread(tid);
    let h = s.history[c0];
    let next = s.threads[tid].stage->Writing_next;
    let new = s.threads[tid].stage->Writing_new;
    assert(thread_shaped(s, tid));
    assert(cell_shaped(s, c0));
    assert(lock_ok(s, slot));
    assert(holder_ok(s, tid));
    assert(memory_ok(s, c0));
    assert(writer_on(s, c0));
    lemma_sum_of_flags(s.threads, done_fn());
    assert(same_frame(s, n));
    lemma_done_count_grows(s, n, tid);
    assert forall|c: int| 0 <= c < n.cells.len() implies #[trigger] cell_shaped(n, c) by {
        assert(cell_shaped(s, c));
    }
    assert forall|t: int| 0 <= t < n.threads.len() implies #[trigger] thread_shaped(n, t) by {
        assert(thread_shaped(s, t));
    }
    assert forall|k: int| 0 <= k < LEN implies #[trigger] lock_ok(n, k) by {
        assert(lock_ok(s, k));
        if s.owner[k] is Some && k != slot {
            let o = s.owner[k].unwrap();
            assert(o != tid);
            assert(thread_shaped(s, o));
        }
    }
    assert forall|t: int| 0 <= t < n.threads.len() implies #[trigger] holder_ok(n, t) by {
        assert(holder_ok(s, t));
        assert(thread_shaped(s, t));
    }
    assert forall|c: int| 0 <= c < n.cells.len() implies #[trigger] memory_ok(n, c) by {
        assert(memory_ok(s, c));
        assert(lock_ok(s, s.cells[c].slot()));
        if c != c0 {
            assert(!writer_on(s, c) ==> !writer_on(n, c));
            assert(writer_on(s, c) ==> writer_on(n, c));
        } else if next >= cell0.count() {
            assert(!writer_on(n, c));
            assert(n.cells[c].words =~= split_spec(h.last(), cell0.kind, cell0.word));
        } else {
            assert(writer_on(n, c));
        }
    }
    assert forall|t: int| 0 <= t < n.threads.len() implies #[trigger] reader_ok(n, t) by {
        assert(reader_ok(s, t));
        let c = s.threads[t].cell as int;
        assert(thread_shaped(s, t));
        assert(lock_ok(s, s.cells[c].slot()));
        if c != c0 {
            assert(!writer_on(s, c) ==> !writer_on(n, c));
            assert(writer_on(s, c) ==> writer_on(n, c));
        }
    }
    assert forall|t: int| 0 <= t < n.threads.len() implies #[trigger] effect_ok(n, t) by {
        assert(effect_ok(s, t));
        assert(thread_shaped(s, t));
    }
    assert forall|c: int| 0 <= c < n.cells.len() implies #[trigger] additive_ok(n, c) by {
        assert(additive_ok(s, c));
        lemma_committed_sum_same(s, n, tid, c);
    }
    assert forall|c: int| 0 <= c < n.cells.len() implies #[trigger] authored_ok(n, c) by {
        assert(authored_ok(s, c));
        assert forall|k: int| 1 <= k < n.history[c].len() implies {
            let t = #[trigger] n.authors[c][k];
            &&& 0 <= t < n.threads.len()
            &&& n.threads[t].cell == c
            &&& outcome_of(n.threads[t].stage) matches Some(outcome) && wrote(outcome)
            &&& n.notes[t].at == k
        } by {
            if k < s.history[c].len() {
                let t = s.authors[c][k];
                assert(effect_ok(s, t));
                assert(effect_ok(s, tid));
            }
        }
    }
}

/// The step that gives the lock back as it was keeps the invariant.
pub proof fn lemma_aborting(s: State, tid: int)
    requires
        inv(s),
        0 <= tid < s.threads.len(),
        s.threads[tid].stage is Aborting,
    ensures
        inv(s.next(tid)),
{
    let n = s.next(tid);
    let c0 = s.threads[tid].cell as int;
    let slot = s.slot_of_thread(tid);
    assert(thread_shaped(s, tid));
    assert(lock_ok(s, slot));
    assert(holder_ok(s, tid));
    assert(effect_ok(s, tid));
    assert(same_frame(s, n));
    lemma_done_count_grows(s, n, tid);
    assert forall|c: int| 0 <= c < n.cells.len() implies #[trigger] cell_shaped(n, c) by {
        assert(cell_shaped(s, c));
    }
    assert forall|t: int| 0 <= t < n.threads.len() implies #[trigger] thread_shaped(n, t) by {
        assert(thread_shaped(s, t));
    }
    assert forall|k: int| 0 <= k < LEN implies #[trigger] lock_ok(n, k) by {
        assert(lock_ok(s, k));
        if s.owner[k] is Some && k != slot {
            let o = s.owner[k].unwrap();
            assert(o != tid);
        }
    }
    assert forall|t: int| 0 <= t < n.threads.len() implies #[trigger] holder_ok(n, t) by {
        assert(holder_ok(s, t));
    }
    assert forall|c: int| 0 <= c < n.cells.len() implies #[trigger] memory_ok(n, c) by {
        assert(memory_ok(s, c));
        assert(lock_ok(s, s.cells[c].slot()));
        assert(!writer_on(s, c) ==> !writer_on(n, c));
        assert(writer_on(s, c) ==> writer_on(n, c));
    }
    assert forall|t: int| 0 <= t < n.threads.len() implies #[trigger] reader_ok(n, t) by {
        assert(reader_ok(s, t));
        let c = s.threads[t].cell as int;
        assert(thread_shaped(s, t));
        assert(lock_ok(s, s.cells[c].slot()));
        assert(!writer_on(s, c) ==> !writer_on(n, c));
        assert(writer_on(s, c) ==> writer_on(n, c));
    }
    assert forall|t: int| 0 <= t < n.threads.len() implies #[trigger] effect_ok(n, t) by {
        assert(effect_ok(s, t));
    }
    assert forall|c: int| 0 <= c < n.cells.len() implies #[trigger] additive_ok(n, c) by {
        assert(additive_ok(s, c));
        lemma_committed_sum_same(s, n, tid, c);
    }
    assert forall|c: int| 0 <= c < n.cells.len() implies #[trigger] authored_ok(n, c) by {
        assert(authored_ok(s, c));
        assert forall|k: int| 1 <= k < n.history[c].len() implies {
            let t = #[trigger] n.authors[c][k];
            &&& 0 <= t < n.threads.len()
            &&& n.threads[t].cell == c
            &&& outcome_of(n.threads[t].stage) matches Some(outcome) && wrote(outcome)
            &&& n.notes[t].at == k
        } by {
            if k < s.history[c].len() {
                let t = s.authors[c][k];
                assert(effect_ok(s, t));
                assert(effect_ok(s, tid));
            }
        }
    }
}

/// Every step of every thread keeps the invariant.
pub proof fn lemma_next_keeps_inv(s: State, tid: int)
    requires
        inv(s),
        0 <= tid < s.threads.len(),
    ensures
        inv(s.next(tid)),
{
    match s.threads[tid].stage {
        Stage::Start => lemma_start(s, tid),
        Stage::Reading { .. } => lemma_reading(s, tid),
        Stage::Acquiring => lemma_acquiring(s, tid),
        Stage::Holding { .. } => lemma_holding(s, tid),
        Stage::Writing { .. } => lemma_writing(s, tid),
        Stage::Aborting { .. } => lemma_aborting(s, tid),
        Stage::Done { .. } => {},
    }
}

} // verus!
