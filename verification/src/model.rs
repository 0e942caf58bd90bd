//! The protocol as a transition system.
//!
//! A state holds the lock table, the cells' storage and, for every thread,
//! the operation it runs and how far it has come. One step of one thread is
//! one access to shared memory: a read or an exchange of a lock's counter,
//! or a read or a write of one word of a cell. Any sequence of such steps,
//! in any order of the threads, is a run of the protocol.
//!
//! Beside what the memory holds, a state records what the proofs speak of:
//! every value that each cell has held and the thread that wrote it, how
//! often each lock was released, and which thread holds it.
use vstd::prelude::*;
use crate::chunks::WordSize;
use crate::chunks::join_spec;
use crate::chunks::word_at;
use crate::chunks::word_count;
use crate::chunks::split_spec;
use crate::kind::IntKind;
use crate::request::Outcome;
use crate::request::Request;
use crate::seq_lock::LOCKED;
use crate::seq_lock::is_odd;
use crate::seq_lock::next_stamp;
use crate::seq_lock::stamp_of;
use crate::table::LEN;
use crate::table::slot_of;

verus! {

/// The greatest number of steps an operation takes: those of a load on a
/// cell of four words that reads without the lock, fails to validate and
/// reads again under the lock.
pub const MAX_RANK: usize = 9;

/// How far a thread has come with its operation.
#[derive(Clone, Copy, Debug, PartialEq, Eq)]
pub enum Stage {
    /// Nothing done yet.
    Start,
    /// An optimistic read: the stamp was `stamp`, the first `next` words
    /// have been read, and `acc` holds them.
    Reading { stamp: usize, next: usize, acc: u128 },
    /// Trying to take the lock.
    Acquiring,
    /// The lock is held; its stamp was `previous`. Nothing read yet.
    Holding { previous: usize },
    /// The lock is held and the first `next` words of `new` are written.
    Writing { previous: usize, new: u128, next: usize, outcome: Outcome },
    /// The lock is held, nothing was written, and the stamp is to be
    /// restored.
    Aborting { previous: usize, outcome: Outcome },
    /// The operation has returned.
    Done { outcome: Outcome },
}

/// A thread: the one operation it runs, on which cell, and how far it is.
#[derive(Clone, Copy, Debug, PartialEq, Eq)]
pub struct Thread {
    /// The index of the cell.
    pub cell: usize,
    /// The operation.
    pub request: Request,
    /// The progress made.
    pub stage: Stage,
}

/// A cell's storage and what is fixed about it.
pub struct CellState {
    /// The integer type.
    pub kind: IntKind,
    /// The width of the words the storage is made of.
    pub word: WordSize,
    /// The address, by which the cell finds its lock.
    pub addr: usize,
    /// The words, the least significant first.
    pub words: Seq<u64>,
}

/// What the proofs record about a thread.
pub struct Note {
    /// The index, in the cell's history, of the value that the cell held
    /// when the operation was asked.
    pub began: int,
    /// The number of releases that the lock had seen when an optimistic
    /// read took its stamp.
    pub seen: nat,
    /// The index, in the cell's history, of the value that the operation
    /// read, or of the value it wrote if it wrote one.
    pub at: int,
}

/// A state of the system.
pub struct State {
    /// The counter of each lock.
    pub locks: Seq<usize>,
    /// The cells.
    pub cells: Seq<CellState>,
    /// The threads.
    pub threads: Seq<Thread>,
    /// For each cell, every value it has held, the first one first.
    pub history: Seq<Seq<u128>>,
    /// For each cell and each value of its history, the thread that wrote
    /// it; for the first value, -1.
    pub authors: Seq<Seq<int>>,
    /// For each lock, how often it was released after a write.
    pub releases: Seq<nat>,
    /// For each lock, the thread that holds it.
    pub owner: Seq<Option<int>>,
    /// For each thread, what the proofs record about it.
    pub notes: Seq<Note>,
}

/// A bound on the number of steps that the thread `t` has yet to make on a
/// cell of `count` words, not counting those on which it finds its lock
/// held.
pub open spec fn rank_of(t: Thread, count: nat) -> int {
    let n = count as int;
    let load = t.request.is_load();
    match t.stage {
        Stage::Start => if load {
            n + 5
        } else {
            n + 4
        },
        Stage::Reading { next, .. } => n - next + 4,
        Stage::Acquiring => if load {
            3
        } else {
            n + 3
        },
        Stage::Holding { .. } => if load {
            2
        } else {
            n + 2
        },
        Stage::Writing { next, .. } => n - next + 1,
        Stage::Aborting { .. } => 1,
        Stage::Done { .. } => 0,
    }
}

impl Stage {
    /// Whether the thread holds its lock.
    pub open spec fn holds_lock(self) -> bool {
        self is Holding || self is Writing || self is Aborting
    }

    /// Whether the operation has taken effect on the cell's history.
    pub open spec fn committed(self) -> bool {
        self is Writing || self is Done
    }
}

impl CellState {
    /// The slot of the cell's lock.
    pub open spec fn slot(self) -> int {
        slot_of(self.addr)
    }

    /// The number of words of the storage.
    pub open spec fn count(self) -> nat {
        word_count(self.kind, self.word)
    }

    /// The pattern that the storage holds at this moment.
    pub open spec fn value(self) -> u128 {
        join_spec(self.words, self.word)
    }
}

impl State {
    /// The state with no cell and no thread.
    pub open spec fn empty() -> State {
        State {
            locks: Seq::new(LEN as nat, |i: int| 0usize),
            cells: Seq::empty(),
            threads: Seq::empty(),
            history: Seq::empty(),
            authors: Seq::empty(),
            releases: Seq::new(LEN as nat, |i: int| 0nat),
            owner: Seq::new(LEN as nat, |i: int| None::<int>),
            notes: Seq::empty(),
        }
    }

    /// The state with one more cell, which holds `val`.
    pub open spec fn with_cell(self, kind: IntKind, word: WordSize, addr: usize, val: u128) -> State {
        State {
            cells: self.cells.push(
                CellState { kind, word, addr, words: split_spec(val, kind, word) },
            ),
            history: self.history.push(seq![val]),
            authors: self.authors.push(seq![-1int]),
            ..self
        }
    }

    /// The state with one more thread, which is to run `request` on the
    /// cell `cell`.
    pub open spec fn with_thread(self, cell: usize, request: Request) -> State {
        State {
            threads: self.threads.push(Thread { cell, request, stage: Stage::Start }),
            notes: self.notes.push(
                Note { began: self.history[cell as int].len() - 1, seen: 0, at: 0 },
            ),
            ..self
        }
    }

    /// The cell that thread `tid` works on.
    pub open spec fn cell_of(self, tid: int) -> CellState {
        self.cells[self.threads[tid].cell as int]
    }

    /// The slot of the lock that thread `tid` works under.
    pub open spec fn slot_of_thread(self, tid: int) -> int {
        self.cell_of(tid).slot()
    }

    /// The state in which thread `tid` is at `stage`, and all else is as in
    /// this one.
    pub open spec fn at_stage(self, tid: int, stage: Stage) -> State {
        State { threads: self.threads.update(tid, Thread { stage, ..self.threads[tid] }), ..self }
    }

    /// Whether thread `tid` cannot go on until another thread moves: it
    /// wants a lock that another thread holds.
    pub open spec fn blocked(self, tid: int) -> bool {
        self.threads[tid].stage is Acquiring && is_odd(self.locks[self.slot_of_thread(tid)])
    }

    /// The first step: a load takes the lock's stamp and reads on if no
    /// writer holds the lock; every other operation, and a load that finds
    /// a writer, goes for the lock.
    pub open spec fn step_start(self, tid: int) -> State {
        let slot = self.slot_of_thread(tid);
        if self.threads[tid].request.is_load() {
            match stamp_of(self.locks[slot]) {
                Some(stamp) => State {
                    notes: self.notes.update(
                        tid,
                        Note { seen: self.releases[slot], ..self.notes[tid] },
                    ),
                    ..self.at_stage(tid, Stage::Reading { stamp, next: 0, acc: 0 })
                },
                None => self.at_stage(tid, Stage::Acquiring),
            }
        } else {
            self.at_stage(tid, Stage::Acquiring)
        }
    }

    /// A step of an optimistic read: the next word or, after the last, the
    /// stamp again. The read stands if the stamp is as it was; if not, the
    /// thread goes for the lock.
    pub open spec fn step_reading(self, tid: int, stamp: usize, next: usize, acc: u128) -> State {
        let cell = self.cell_of(tid);
        if next < cell.count() {
            let word = cell.words[next as int];
            let shift = (next * cell.word.bits()) as u32;
            self.at_stage(
                tid,
                Stage::Reading { stamp, next: (next + 1) as usize, acc: acc | ((word as u128) << shift) },
            )
        } else if self.locks[cell.slot()] == stamp {
            State {
                notes: self.notes.update(
                    tid,
                    Note {
                        at: self.history[self.threads[tid].cell as int].len() - 1,
                        ..self.notes[tid]
                    },
                ),
                ..self.at_stage(tid, Stage::Done { outcome: Outcome::Loaded(acc) })
            }
        } else {
            self.at_stage(tid, Stage::Acquiring)
        }
    }

    /// One attempt at the lock: the counter is exchanged with `LOCKED`, and
    /// the lock is taken unless the counter was odd.
    pub open spec fn step_acquiring(self, tid: int) -> State {
        let slot = self.slot_of_thread(tid);
        let previous = self.locks[slot];
        let locked = State { locks: self.locks.update(slot, LOCKED), ..self };
        if is_odd(previous) {
            locked
        } else {
            State {
                owner: self.owner.update(slot, Some(tid)),
                ..locked.at_stage(tid, Stage::Holding { previous })
            }
        }
    }

    /// The step under the lock that reads the value and decides: a value to
    /// write enters the cell's history and the writing begins; with none,
    /// the lock is to be given back as it was.
    pub open spec fn step_holding(self, tid: int, previous: usize) -> State {
        let cell = self.cell_of(tid);
        let c = self.threads[tid].cell as int;
        let r = self.threads[tid].request.resolution(cell.kind, cell.value());
        match r.write {
            Some(new) => State {
                history: self.history.update(c, self.history[c].push(new)),
                authors: self.authors.update(c, self.authors[c].push(tid)),
                notes: self.notes.update(tid, Note { at: self.history[c].len() as int, ..self.notes[tid] }),
                ..self.at_stage(tid, Stage::Writing { previous, new, next: 0, outcome: r.outcome })
            },
            None => State {
                notes: self.notes.update(tid, Note { at: self.history[c].len() - 1, ..self.notes[tid] }),
                ..self.at_stage(tid, Stage::Aborting { previous, outcome: r.outcome })
            },
        }
    }

    /// A step of a write: the next word or, after the last, the release of
    /// the lock with the next stamp.
    pub open spec fn step_writing(
        self,
        tid: int,
        previous: usize,
        new: u128,
        next: usize,
        outcome: Outcome,
    ) -> State {
        let cell = self.cell_of(tid);
        let c = self.threads[tid].cell as int;
        let slot = cell.slot();
        if next < cell.count() {
            State {
                cells: self.cells.update(
                    c,
                    CellState {
                        words: cell.words.update(next as int, word_at(new, cell.word, next as nat)),
                        ..cell
                    },
                ),
                ..self.at_stage(
                    tid,
                    Stage::Writing { previous, new, next: (next + 1) as usize, outcome },
                )
            }
        } else {
            State {
                locks: self.locks.update(slot, next_stamp(previous)),
                releases: self.releases.update(slot, self.releases[slot] + 1),
                owner: self.owner.update(slot, None),
                ..self.at_stage(tid, Stage::Done { outcome })
            }
        }
    }

    /// The step that gives the lock back with the stamp it had.
    pub open spec fn step_aborting(self, tid: int, previous: usize, outcome: Outcome) -> State {
        let slot = self.slot_of_thread(tid);
        State {
            locks: self.locks.update(slot, previous),
            owner: self.owner.update(slot, None),
            ..self.at_stage(tid, Stage::Done { outcome })
        }
    }

    /// A bound on the number of steps that thread `tid` has yet to make,
    /// not counting those on which it finds its lock held.
    pub open spec fn rank(self, tid: int) -> int {
        rank_of(self.threads[tid], self.cell_of(tid).count())
    }

    /// The state after thread `tid` has moved until its operation has
    /// returned or it finds its lock held, but `fuel` steps at most.
    pub open spec fn run_for(self, tid: int, fuel: nat) -> State
        decreases fuel,
    {
        if fuel == 0 || self.threads[tid].stage is Done || self.blocked(tid) {
            self
        } else {
            self.next(tid).run_for(tid, (fuel - 1) as nat)
        }
    }

    /// The state after thread `tid` has moved, alone, until its operation
    /// has returned or it finds its lock held.
    pub open spec fn run(self, tid: int) -> State {
        self.run_for(tid, MAX_RANK as nat)
    }

    /// The state after one step of thread `tid`.
    pub open spec fn next(self, tid: int) -> State {
        match self.threads[tid].stage {
            Stage::Start => self.step_start(tid),
            Stage::Reading { stamp, next, acc } => self.step_reading(tid, stamp, next, acc),
            Stage::Acquiring => self.step_acquiring(tid),
            Stage::Holding { previous } => self.step_holding(tid, previous),
            Stage::Writing { previous, new, next, outcome } => self.step_writing(
                tid,
                previous,
                new,
                next,
                outcome,
            ),
            Stage::Aborting { previous, outcome } => self.step_aborting(tid, previous, outcome),
            Stage::Done { .. } => self,
        }
    }
}

} // verus!
