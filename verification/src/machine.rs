//! The protocol, run one step at a time under a schedule the caller picks.
//!
//! A machine holds a lock table, cells and threads. Each thread runs one
//! operation; each call of `step` lets one thread make one access to shared
//! memory. The caller decides which thread moves next, so that any
//! interleaving can be played through, and every state on the way meets the
//! invariant of the protocol.
use vstd::prelude::*;
use crate::alone::completed;
use crate::alone::lemma_run_alone;
use crate::cell::AtomicCell;
use crate::chunks::WordSize;
use crate::chunks::append_word;
use crate::chunks::count_words;
use crate::chunks::extract;
use crate::chunks::join;
use crate::chunks::lemma_words_fit;
use crate::chunks::split;
use crate::induction::lemma_empty;
use crate::induction::lemma_holder_reads_last;
use crate::induction::lemma_next_keeps_inv;
use crate::induction::lemma_with_cell;
use crate::induction::lemma_with_thread;
use crate::kind::IntKind;
use crate::laws::lemma_rank_of_done;
use crate::laws::lemma_step_makes_progress;
use crate::model::MAX_RANK;
use crate::model::Stage;
use crate::model::State;
use crate::model::Thread;
use crate::request::Outcome;
use crate::request::Request;
use crate::safety::MAX_THREADS;
use crate::safety::cell_shaped;
use crate::safety::inv;
use crate::safety::thread_shaped;
use crate::seq_lock::is_odd;
use crate::table::LockTable;
use crate::table::slot_of;

verus! {

/// Why a thread was not started.
#[derive(Clone, Copy, Debug, PartialEq, Eq)]
pub enum SpawnError {
    /// The operation does not accept the memory order asked.
    IllegalOrder,
    /// There is no cell with that index.
    NoSuchCell,
    /// An operand is no pattern of the cell's type.
    OutOfRange,
    /// The machine has as many threads as it can hold.
    Full,
}

/// The lock table, the cells and the threads.
pub struct Machine {
    /// The locks.
    pub table: LockTable,
    /// The cells.
    pub cells: Vec<AtomicCell>,
    /// The threads.
    pub threads: Vec<Thread>,
    /// The number of threads that the machine accepts.
    pub limit: usize,
    /// The state as the proofs see it.
    pub shadow: Ghost<State>,
}

impl View for Machine {
    type V = State;

    /// The state of the transition system that the machine is in.
    open spec fn view(&self) -> State {
        self.shadow@
    }
}

impl Machine {
    /// Whether the machine holds what its state says, and the state meets
    /// the invariant of the protocol.
    pub open spec fn wf(&self) -> bool {
        &&& self.table.wf()
        &&& self.table@ == self@.locks
        &&& self.cells@.len() == self@.cells.len()
        &&& forall|c: int| 0 <= c < self.cells@.len() ==> (#[trigger] self.cells@[c])@ == self@.cells[c]
        &&& self.threads@ == self@.threads
        &&& self.limit <= MAX_THREADS
        &&& inv(self@)
    }

    /// A machine with no cell and no thread, and all locks free, that
    /// accepts as many threads as a machine can hold.
    pub fn new() -> (m: Machine)
        ensures
            m.wf(),
            m@ == State::empty(),
            m.limit == MAX_THREADS,
    {
        Machine::with_limit(MAX_THREADS)
    }

    /// A machine with no cell and no thread, and all locks free, that
    /// accepts `limit` threads, or as many as a machine can hold if that is
    /// fewer.
    pub fn with_limit(limit: usize) -> (m: Machine)
        ensures
            m.wf(),
            m@ == State::empty(),
            m.limit == if limit <= MAX_THREADS {
                limit
            } else {
                MAX_THREADS
            },
    {
        let table = LockTable::new();
        proof {
            lemma_empty();
            assert(table@ =~= State::empty().locks);
        }
        Machine {
            table,
            cells: Vec::new(),
            threads: Vec::new(),
            limit: if limit <= MAX_THREADS {
                limit
            } else {
                MAX_THREADS
            },
            shadow: Ghost(State::empty()),
        }
    }

    /// Adds a cell of type `kind` at the address `addr`, made of words of
    /// width `word`, that holds `val`. Returns its index, or nothing if
    /// `val` is no pattern of the type.
    pub fn add_cell(&mut self, kind: IntKind, word: WordSize, addr: usize, val: u128) -> (id: Option<
        usize,
    >)
        requires
            old(self).wf(),
        ensures
            final(self).wf(),
            final(self).limit == old(self).limit,
            kind.holds(val) ==> id == Some(old(self)@.cells.len() as usize) && final(self)@ == old(
                self,
            )@.with_cell(kind, word, addr, val),
            !kind.holds(val) ==> id is None && final(self)@ == old(self)@,
    {
        if !kind.accepts(val) {
            return None;
        }
        let id = self.cells.len();
        let words = split(val, kind, word);
        self.cells.push(AtomicCell { kind, word, addr, words });
        proof {
            lemma_with_cell(old(self)@, kind, word, addr, val);
            self.shadow = Ghost(old(self)@.with_cell(kind, word, addr, val));
        }
        Some(id)
    }

    /// Starts a thread that is to run `request` on the cell `cell`, and
    /// returns its index. The memory order is checked first, before
    /// anything of the machine is looked at; a thread that is refused
    /// leaves the machine as it was.
    pub fn spawn(&mut self, cell: usize, request: Request) -> (id: Result<usize, SpawnError>)
        requires
            old(self).wf(),
        ensures
            final(self).wf(),
            final(self).limit == old(self).limit,
            id == spawn_result(old(self)@, old(self).limit, cell, request),
            id is Ok ==> final(self)@ == old(self)@.with_thread(cell, request),
            id is Err ==> final(self)@ == old(self)@,
    {
        if !request.has_legal_order() {
            return Err(SpawnError::IllegalOrder);
        }
        if cell >= self.cells.len() {
            return Err(SpawnError::NoSuchCell);
        }
        if !request.has_operands_of(self.cells[cell].kind) {
            return Err(SpawnError::OutOfRange);
        }
        if self.threads.len() >= self.limit {
            return Err(SpawnError::Full);
        }
        let id = self.threads.len();
        self.threads.push(Thread { cell, request, stage: Stage::Start });
        proof {
            lemma_with_thread(old(self)@, cell, request);
            self.shadow = Ghost(old(self)@.with_thread(cell, request));
        }
        Ok(id)
    }

    /// The number of threads.
    pub fn thread_count(&self) -> (n: usize)
        requires
            self.wf(),
        ensures
            n == self@.threads.len(),
    {
        self.threads.len()
    }

    /// The number of cells.
    pub fn cell_count(&self) -> (n: usize)
        requires
            self.wf(),
        ensures
            n == self@.cells.len(),
    {
        self.cells.len()
    }

    /// How far the thread `tid` has come.
    pub fn stage(&self, tid: usize) -> (stage: Stage)
        requires
            self.wf(),
            tid < self@.threads.len(),
        ensures
            stage == self@.threads[tid as int].stage,
    {
        self.threads[tid].stage
    }

    /// What the operation of the thread `tid` returned, once it has.
    pub fn outcome(&self, tid: usize) -> (outcome: Option<Outcome>)
        requires
            self.wf(),
            tid < self@.threads.len(),
        ensures
            outcome == match self@.threads[tid as int].stage {
                Stage::Done { outcome } => Some(outcome),
                _ => None,
            },
    {
        match self.threads[tid].stage {
            Stage::Done { outcome } => Some(outcome),
            _ => None,
        }
    }

    /// Whether the thread `tid` waits for a lock that another thread holds,
    /// so that a step of it changes nothing.
    pub fn is_blocked(&self, tid: usize) -> (blocked: bool)
        requires
            self.wf(),
            tid < self@.threads.len(),
        ensures
            blocked == self@.blocked(tid as int),
    {
        proof {
            assert(thread_shaped(self@, tid as int));
        }
        let thread = self.threads[tid];
        match thread.stage {
            Stage::Acquiring => {
                let addr = self.cells[thread.cell].addr;
                self.table.optimistic_read(addr).is_none()
            },
            _ => false,
        }
    }

    /// The counter of the lock that serves the address `addr`.
    pub fn lock_state(&self, addr: usize) -> (state: usize)
        requires
            self.wf(),
        ensures
            state == self@.locks[slot_of(addr)],
    {
        crate::table::lock(&self.table, addr).state
    }

    /// The pattern that the storage of the cell `cell` holds at this
    /// moment. While a thread is part-way through writing the cell, this is
    /// a mixture that no operation ever returns.
    pub fn peek(&self, cell: usize) -> (raw: u128)
        requires
            self.wf(),
            cell < self@.cells.len(),
        ensures
            raw == self@.cells[cell as int].value(),
    {
        proof {
            assert(cell_shaped(self@, cell as int));
            lemma_words_fit(self.cells@[cell as int].kind, self.cells@[cell as int].word, self@.cells[cell as int].count());
        }
        let c = &self.cells[cell];
        join(&c.words, c.word)
    }

    /// Lets the thread `tid` make one access to shared memory.
    pub fn step(&mut self, tid: usize)
        requires
            old(self).wf(),
            tid < old(self)@.threads.len(),
        ensures
            final(self).wf(),
            final(self).limit == old(self).limit,
            final(self)@ == old(self)@.next(tid as int),
    {
        let ghost before = self@;
        let ghost after = before.next(tid as int);
        proof {
            lemma_next_keeps_inv(before, tid as int);
            assert(thread_shaped(before, tid as int));
        }
        let thread = self.threads[tid];
        let c = thread.cell;
        proof {
            assert(cell_shaped(before, c as int));
        }
        let kind = self.cells[c].kind;
        let word = self.cells[c].word;
        let addr = self.cells[c].addr;
        let n = count_words(kind, word);
        proof {
            lemma_words_fit(kind, word, n as nat);
        }
        match thread.stage {
            Stage::Start => {
                let stage = match thread.request {
                    Request::Load { .. } => match self.table.optimistic_read(addr) {
                        Some(stamp) => Stage::Reading { stamp, next: 0, acc: 0 },
                        None => Stage::Acquiring,
                    },
                    _ => Stage::Acquiring,
                };
                self.threads.set(tid, Thread { cell: c, request: thread.request, stage });
            },
            Stage::Reading { stamp, next, acc } => {
                let stage = if next < n {
                    proof {
                        lemma_words_fit(kind, word, next as nat);
                    }
                    let w = self.cells[c].words[next];
                    Stage::Reading { stamp, next: next + 1, acc: append_word(acc, word, next, w) }
                } else if self.table.validate_read(addr, stamp) {
                    Stage::Done { outcome: Outcome::Loaded(acc) }
                } else {
                    Stage::Acquiring
                };
                self.threads.set(tid, Thread { cell: c, request: thread.request, stage });
            },
            Stage::Acquiring => {
                match self.table.try_write(addr) {
                    Some(guard) => {
                        let stage = Stage::Holding { previous: guard.state };
                        self.threads.set(tid, Thread { cell: c, request: thread.request, stage });
                    },
                    None => {},
                }
            },
            Stage::Holding { previous } => {
                proof {
                    lemma_holder_reads_last(before, tid as int);
                }
                let cur = join(&self.cells[c].words, word);
                let r = thread.request.resolve(kind, cur);
                let stage = match r.write {
                    Some(new) => Stage::Writing { previous, new, next: 0, outcome: r.outcome },
                    None => Stage::Aborting { previous, outcome: r.outcome },
                };
                self.threads.set(tid, Thread { cell: c, request: thread.request, stage });
            },
            Stage::Writing { previous, new, next, outcome } => {
                if next < n {
                    proof {
                        lemma_words_fit(kind, word, next as nat);
                    }
                    let w = extract(new, word, next);
                    self.cells[c].words[next] = w;
                    let stage = Stage::Writing { previous, new, next: next + 1, outcome };
                    self.threads.set(tid, Thread { cell: c, request: thread.request, stage });
                } else {
                    let guard = crate::seq_lock::SeqLockWriteGuard { state: previous };
                    self.table.release(addr, guard);
                    let stage = Stage::Done { outcome };
                    self.threads.set(tid, Thread { cell: c, request: thread.request, stage });
                }
            },
            Stage::Aborting { previous, outcome } => {
                let guard = crate::seq_lock::SeqLockWriteGuard { state: previous };
                self.table.abort(addr, guard);
                let stage = Stage::Done { outcome };
                self.threads.set(tid, Thread { cell: c, request: thread.request, stage });
            },
            Stage::Done { .. } => {},
        }
        proof {
            self.shadow = Ghost(after);
            assert(self.threads@ =~= after.threads);
            assert(self.table@ =~= after.locks);
            assert forall|k: int| 0 <= k < self.cells@.len() implies (#[trigger] self.cells@[k])@
                == after.cells[k] by {
                assert(old(self).cells@[k]@ == before.cells[k]);
                if k == c {
                    assert(self.cells@[k]@.words =~= after.cells[k].words);
                }
            }
        }
    }
}

impl Machine {
    /// Lets the thread `tid` move, alone, until its operation has returned
    /// or it finds its lock held. Tells whether the operation has
    /// returned. A thread that has not begun and whose lock is free always
    /// returns, and leaves what its operation does when it acts at once.
    pub fn run(&mut self, tid: usize) -> (done: bool)
        requires
            old(self).wf(),
            tid < old(self)@.threads.len(),
        ensures
            final(self).wf(),
            final(self).limit == old(self).limit,
            final(self)@ == old(self)@.run(tid as int),
            done == (final(self)@.threads[tid as int].stage is Done),
            !done ==> final(self)@.blocked(tid as int),
            old(self)@.threads[tid as int].stage is Start && !is_odd(
                old(self)@.locks[old(self)@.slot_of_thread(tid as int)],
            ) ==> done && final(self)@ == completed(old(self)@, tid as int),
    {
        let mut fuel: usize = MAX_RANK;
        proof {
            lemma_rank_of_done(self@, tid as int);
            if self@.threads[tid as int].stage is Start && !is_odd(
                self@.locks[self@.slot_of_thread(tid as int)],
            ) {
                lemma_run_alone(self@, tid as int);
            }
        }
        loop
            invariant
                self.wf(),
                self.limit == old(self).limit,
                tid < self@.threads.len(),
                tid < old(self)@.threads.len(),
                self@.run_for(tid as int, fuel as nat) == old(self)@.run(tid as int),
                old(self)@.threads[tid as int].stage is Start && !is_odd(
                    old(self)@.locks[old(self)@.slot_of_thread(tid as int)],
                ) ==> old(self)@.run(tid as int) == completed(old(self)@, tid as int),
                0 <= self@.rank(tid as int) <= fuel,
            decreases fuel,
        {
            proof {
                lemma_rank_of_done(self@, tid as int);
            }
            match self.threads[tid].stage {
                Stage::Done { .. } => {
                    return true;
                },
                _ => {},
            }
            if self.is_blocked(tid) {
                return false;
            }
            proof {
                lemma_step_makes_progress(self@, tid as int);
            }
            self.step(tid);
            fuel = fuel - 1;
        }
    }
}

/// What `spawn` answers: the index of the new thread, or the first reason,
/// in this order, for which there is none.
pub open spec fn spawn_result(s: State, limit: usize, cell: usize, request: Request) -> Result<
    usize,
    SpawnError,
> {
    if !request.order_allowed() {
        Err(SpawnError::IllegalOrder)
    } else if cell >= s.cells.len() {
        Err(SpawnError::NoSuchCell)
    } else if !request.operands_hold(s.cells[cell as int].kind) {
        Err(SpawnError::OutOfRange)
    } else if s.threads.len() >= limit {
        Err(SpawnError::Full)
    } else {
        Ok(s.threads.len() as usize)
    }
}

} // verus!
