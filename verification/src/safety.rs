//! What holds of every state that a run of the protocol can reach.
use vstd::prelude::*;
use crate::chunks::join_spec;
use crate::chunks::split_spec;
use crate::chunks::word_at;
use crate::kind::IntKind;
use crate::model::CellState;
use crate::model::Stage;
use crate::model::State;
use crate::model::Thread;
use crate::request::Outcome;
use crate::request::Request;
use crate::rmw::RmwOp;
use crate::rmw::rmw_result;
use crate::seq_lock::LOCKED;
use crate::table::LEN;
use crate::tally::sum_over;

verus! {

/// The greatest number of threads a state can have. Every thread releases
/// a lock at most once, so that with no more threads than this no stamp
/// ever wraps around.
pub const MAX_THREADS: usize = 0x3fff_ffff;

/// One for a thread whose operation has returned, zero for any other.
pub open spec fn done_flag(t: Thread) -> int {
    if t.stage is Done {
        1
    } else {
        0
    }
}

/// The function that `done_count` sums.
pub open spec fn done_fn() -> spec_fn(Thread) -> int {
    |t: Thread| done_flag(t)
}

/// The number of threads whose operation has returned.
pub open spec fn done_count(threads: Seq<Thread>) -> int {
    sum_over(threads, done_fn())
}

/// The stamp that a thread took the lock with.
pub open spec fn previous_of(stage: Stage) -> usize {
    match stage {
        Stage::Holding { previous } => previous,
        Stage::Writing { previous, .. } => previous,
        Stage::Aborting { previous, .. } => previous,
        _ => 0,
    }
}

/// Whether a thread is part-way through writing the cell `c`.
pub open spec fn writer_on(s: State, c: int) -> bool {
    s.owner[s.cells[c].slot()] matches Some(t) && s.threads[t].cell == c && s.threads[t].stage is Writing
}

/// The cell `c` has as many words as its type takes, and a history of
/// patterns of its type.
pub open spec fn cell_shaped(s: State, c: int) -> bool {
    let cell = s.cells[c];
    &&& cell.words.len() == cell.count()
    &&& s.history[c].len() >= 1
    &&& forall|k: int| 0 <= k < s.history[c].len() ==> cell.kind.holds(#[trigger] s.history[c][k])
}

/// The thread `t` runs a legal operation on a cell that exists, and its
/// counters are within the cell.
pub open spec fn thread_shaped(s: State, t: int) -> bool {
    let th = s.threads[t];
    let cell = s.cells[th.cell as int];
    &&& th.cell < s.cells.len()
    &&& th.request.order_allowed()
    &&& th.request.operands_hold(cell.kind)
    &&& 0 <= s.notes[t].began < s.history[th.cell as int].len()
    &&& match th.stage {
        Stage::Reading { next, .. } => next <= cell.count() && th.request.is_load(),
        Stage::Writing { next, new, .. } => next <= cell.count() && cell.kind.holds(new),
        _ => true,
    }
}

/// The sequences of the state fit together.
pub open spec fn shaped(s: State) -> bool {
    &&& s.locks.len() == LEN
    &&& s.releases.len() == LEN
    &&& s.owner.len() == LEN
    &&& s.cells.len() == s.history.len()
    &&& s.cells.len() == s.authors.len()
    &&& s.threads.len() == s.notes.len()
    &&& s.threads.len() <= MAX_THREADS
    &&& forall|c: int| 0 <= c < s.cells.len() ==> #[trigger] cell_shaped(s, c)
    &&& forall|t: int| 0 <= t < s.threads.len() ==> #[trigger] thread_shaped(s, t)
}

/// The counter of the lock `slot` is `LOCKED` while a thread holds it, and
/// twice the number of its releases otherwise; the holder took it with
/// that stamp.
pub open spec fn lock_ok(s: State, slot: int) -> bool {
    &&& s.releases[slot] <= done_count(s.threads)
    &&& match s.owner[slot] {
        None => s.locks[slot] == 2 * s.releases[slot],
        Some(t) => {
            &&& 0 <= t < s.threads.len()
            &&& s.threads[t].stage.holds_lock()
            &&& s.slot_of_thread(t) == slot
            &&& s.locks[slot] == LOCKED
            &&& previous_of(s.threads[t].stage) == 2 * s.releases[slot]
        },
    }
}

/// A thread that holds a lock is the owner of its slot, so that no two
/// threads hold one lock.
pub open spec fn holder_ok(s: State, t: int) -> bool {
    s.threads[t].stage.holds_lock() ==> s.owner[s.slot_of_thread(t)] == Some(t)
}

/// The storage of the cell `c` holds the last value of its history, but
/// while a thread is writing it: then the words written so far are those
/// of the new value, which is the last of the history, and the others are
/// those of the value before.
pub open spec fn memory_ok(s: State, c: int) -> bool {
    let cell = s.cells[c];
    let h = s.history[c];
    if writer_on(s, c) {
        let t = s.owner[cell.slot()].unwrap();
        match s.threads[t].stage {
            Stage::Writing { new, next, .. } => {
                &&& h.len() >= 2
                &&& h.last() == new
                &&& forall|j: int|
                    0 <= j < cell.words.len() ==> #[trigger] cell.words[j] == if j < next {
                        word_at(new, cell.word, j as nat)
                    } else {
                        word_at(h[h.len() - 2], cell.word, j as nat)
                    }
            },
            _ => false,
        }
    } else {
        cell.words == split_spec(h.last(), cell.kind, cell.word)
    }
}

/// An optimistic reader took an even stamp; and as long as the lock has
/// not been released since and nobody is writing the cell, what it has
/// read are words of the cell's value.
pub open spec fn reader_ok(s: State, t: int) -> bool {
    let th = s.threads[t];
    let c = th.cell as int;
    let cell = s.cells[c];
    match th.stage {
        Stage::Reading { stamp, next, acc } => {
            &&& stamp == 2 * s.notes[t].seen
            &&& s.notes[t].seen <= s.releases[cell.slot()]
            &&& (s.notes[t].seen == s.releases[cell.slot()] && !writer_on(s, c)) ==> acc
                == join_spec(
                split_spec(s.history[c].last(), cell.kind, cell.word).take(next as int),
                cell.word,
            )
        },
        _ => true,
    }
}

/// Whether `outcome` is what `request` returns when it takes effect at index
/// `at` of the history `h`: a load reads the value at `at`; a write makes
/// the value at `at` out of the one before it.
pub open spec fn recorded(request: Request, kind: IntKind, h: Seq<u128>, at: int, outcome: Outcome) -> bool {
    match request {
        Request::Load { .. } => outcome == Outcome::Loaded(h[at]),
        Request::Store { val, .. } => at >= 1 && h[at] == val && outcome == Outcome::Stored,
        Request::Rmw { op, val, .. } => at >= 1 && h[at] == rmw_result(kind, op, h[at - 1], val)
            && outcome == Outcome::Previous(h[at - 1]),
        Request::CompareExchange { current, new, .. } => if outcome is Exchanged {
            at >= 1 && h[at - 1] == current && h[at] == new && outcome == Outcome::Exchanged(
                current,
            )
        } else {
            h[at] != current && outcome == Outcome::Mismatch(h[at])
        },
    }
}

/// Whether an operation with this outcome wrote a value.
pub open spec fn wrote(outcome: Outcome) -> bool {
    outcome is Stored || outcome is Previous || outcome is Exchanged
}

/// Every value of the history of the cell `c`, but the first, was written
/// by a thread whose operation on `c` took effect at that very index.
pub open spec fn authored_ok(s: State, c: int) -> bool {
    &&& s.authors[c].len() == s.history[c].len()
    &&& forall|k: int|
        1 <= k < s.history[c].len() ==> {
            let t = #[trigger] s.authors[c][k];
            &&& 0 <= t < s.threads.len()
            &&& s.threads[t].cell == c
            &&& outcome_of(s.threads[t].stage) matches Some(outcome) && wrote(outcome)
            &&& s.notes[t].at == k
        }
}

/// The index of the value that an operation read, given the index `at` at
/// which it took effect: for one that wrote, the value before.
pub open spec fn read_at(outcome: Outcome, at: int) -> int {
    if outcome is Loaded || outcome is Mismatch {
        at
    } else {
        at - 1
    }
}

/// The outcome that a thread carries, once it has one.
pub open spec fn outcome_of(stage: Stage) -> Option<Outcome> {
    match stage {
        Stage::Writing { outcome, .. } => Some(outcome),
        Stage::Aborting { outcome, .. } => Some(outcome),
        Stage::Done { outcome } => Some(outcome),
        _ => None,
    }
}

/// The outcome of the thread `t`, once it has one, is what its operation
/// returns at some point of the cell's history that is not before the
/// value the cell held when the operation was asked.
pub open spec fn effect_ok(s: State, t: int) -> bool {
    let th = s.threads[t];
    let h = s.history[th.cell as int];
    let at = s.notes[t].at;
    match outcome_of(th.stage) {
        Some(outcome) => {
            &&& 0 <= at < h.len()
            &&& recorded(th.request, s.cells[th.cell as int].kind, h, at, outcome)
            &&& s.notes[t].began <= read_at(outcome, at)
            &&& th.stage is Writing ==> at == h.len() - 1
            &&& th.stage is Aborting ==> at == h.len() - 1 && (outcome is Loaded || outcome is Mismatch)
            &&& wrote(outcome) ==> s.authors[th.cell as int][at] == t
        },
        None => true,
    }
}

/// The amount that an operation adds to the cell's value, for the
/// operations that add or subtract; zero for a load.
pub open spec fn delta(request: Request, kind: IntKind) -> int {
    match request {
        Request::Rmw { op: RmwOp::Add, val, .. } => kind.value(val),
        Request::Rmw { op: RmwOp::Sub, val, .. } => -kind.value(val),
        _ => 0,
    }
}

/// Whether an operation is a load, an addition or a subtraction.
pub open spec fn is_additive(request: Request) -> bool {
    match request {
        Request::Load { .. } => true,
        Request::Rmw { op: RmwOp::Add, .. } => true,
        Request::Rmw { op: RmwOp::Sub, .. } => true,
        _ => false,
    }
}

/// Whether every operation on the cell `c` is a load, an addition or a
/// subtraction.
pub open spec fn all_additive(threads: Seq<Thread>, c: int) -> bool {
    forall|t: int| 0 <= t < threads.len() && (#[trigger] threads[t]).cell == c ==> is_additive(threads[t].request)
}

/// What the thread `t` has added to the cell `c`: the amount of its
/// operation once that has taken effect, and nothing before.
pub open spec fn contribution(t: Thread, c: int, kind: IntKind) -> int {
    if t.cell == c && t.stage.committed() {
        delta(t.request, kind)
    } else {
        0
    }
}

/// The function that `committed_sum` sums.
pub open spec fn contribution_fn(c: int, kind: IntKind) -> spec_fn(Thread) -> int {
    |t: Thread| contribution(t, c, kind)
}

/// The sum of what the threads have added to the cell `c`.
pub open spec fn committed_sum(threads: Seq<Thread>, c: int, kind: IntKind) -> int {
    sum_over(threads, contribution_fn(c, kind))
}

/// Where every operation on the cell `c` adds or subtracts, the cell's
/// value is its first value plus all that was added, wrapped to the width.
pub open spec fn additive_ok(s: State, c: int) -> bool {
    let kind = s.cells[c].kind;
    all_additive(s.threads, c) ==> s.history[c].last() == kind.encode(
        kind.value(s.history[c][0]) + committed_sum(s.threads, c, kind),
    )
}

/// The invariant of the protocol.
pub open spec fn inv(s: State) -> bool {
    &&& shaped(s)
    &&& forall|slot: int| 0 <= slot < LEN ==> #[trigger] lock_ok(s, slot)
    &&& forall|t: int| 0 <= t < s.threads.len() ==> #[trigger] holder_ok(s, t)
    &&& forall|c: int| 0 <= c < s.cells.len() ==> #[trigger] memory_ok(s, c)
    &&& forall|t: int| 0 <= t < s.threads.len() ==> #[trigger] reader_ok(s, t)
    &&& forall|t: int| 0 <= t < s.threads.len() ==> #[trigger] effect_ok(s, t)
    &&& forall|c: int| 0 <= c < s.cells.len() ==> #[trigger] additive_ok(s, c)
    &&& forall|c: int| 0 <= c < s.cells.len() ==> #[trigger] authored_ok(s, c)
}

} // verus!
