//! The lock-emulated atomic cell.
//!
//! A cell is plain storage, made of machine words, at some address. Every
//! operation finds the cell's lock in the striped table by that address. A
//! load first reads without the lock and checks the lock's stamp afterwards;
//! every operation that writes takes the lock, reads, computes, writes and
//! releases, which advances the stamp. An operation that took the lock and
//! wrote nothing gives it back with the stamp it had.
//!
//! The operations here run to their end in one call, as they do when no
//! other thread interferes. Where the lock is held they do not wait: they
//! return `None`, and the caller tries again.
use vstd::prelude::*;
use crate::chunks::WordSize;
use crate::chunks::count_words;
use crate::chunks::extract;
use crate::chunks::join;
use crate::chunks::join_spec;
use crate::chunks::lemma_join_split;
use crate::chunks::lemma_words_fit;
use crate::chunks::split;
use crate::chunks::split_spec;
use crate::chunks::word_at;
use crate::chunks::word_count;
use crate::kind::IntKind;
use crate::model::CellState;
use crate::order::MemoryOrder;
use crate::order::compare_exchange_order_allowed;
use crate::order::load_order_allowed;
use crate::order::store_order_allowed;
use crate::request::Outcome;
use crate::request::Request;
use crate::rmw::RmwOp;
use crate::rmw::rmw_result;
use crate::seq_lock::LOCKED;
use crate::seq_lock::SeqLockWriteGuard;
use crate::seq_lock::is_odd;
use crate::seq_lock::next_stamp;
use crate::table::LockTable;
use crate::table::slot_of;

verus! {

/// A cell: its type, the width of its words, its address and its storage.
pub struct AtomicCell {
    /// The integer type.
    pub kind: IntKind,
    /// The width of the words the storage is made of.
    pub word: WordSize,
    /// The address, by which the cell finds its lock.
    pub addr: usize,
    /// The words, the least significant first.
    pub words: Vec<u64>,
}

impl View for AtomicCell {
    type V = CellState;

    open spec fn view(&self) -> CellState {
        CellState { kind: self.kind, word: self.word, addr: self.addr, words: self.words@ }
    }
}

/// Whether a writer holds the lock that serves `addr`.
pub open spec fn busy(table: Seq<usize>, addr: usize) -> bool {
    is_odd(table[slot_of(addr)])
}

/// The table after a failed attempt at the lock that serves `addr`.
pub open spec fn refused(table: Seq<usize>, addr: usize) -> Seq<usize> {
    table.update(slot_of(addr), LOCKED)
}

/// The table after a write under the lock that serves `addr`: that lock
/// has its next stamp, and no other lock has changed.
pub open spec fn advanced(table: Seq<usize>, addr: usize) -> Seq<usize> {
    table.update(slot_of(addr), next_stamp(table[slot_of(addr)]))
}

/// What a read-modify-write does to a cell and to the table. With the lock
/// free, the value `v` of the cell is replaced by what `op` makes of `v`
/// and `val`, `v` is returned, and the lock gets its next stamp. With the
/// lock held, nothing is returned and the value stays.
pub open spec fn updated(
    before: &AtomicCell,
    table_before: Seq<usize>,
    after: &AtomicCell,
    table_after: Seq<usize>,
    op: RmwOp,
    val: u128,
    prev: Option<u128>,
) -> bool {
    &&& after.same_cell(before)
    &&& if busy(table_before, before.addr) {
        &&& prev is None
        &&& after.value() == before.value()
        &&& table_after == refused(table_before, before.addr)
    } else {
        &&& prev == Some(before.value())
        &&& after.value() == rmw_result(before.kind, op, before.value(), val)
        &&& table_after == advanced(table_before, before.addr)
    }
}

impl AtomicCell {
    /// The pattern that the cell holds.
    pub open spec fn value(&self) -> u128 {
        join_spec(self.words@, self.word)
    }

    /// Whether the storage is that of a pattern of the cell's type.
    pub open spec fn wf(&self) -> bool {
        &&& self.kind.holds(self.value())
        &&& self.words@ == split_spec(self.value(), self.kind, self.word)
    }

    /// Whether `other` is this cell with, perhaps, another value.
    pub open spec fn same_cell(&self, other: &AtomicCell) -> bool {
        self.kind == other.kind && self.word == other.word && self.addr == other.addr
    }

    /// A cell of type `kind` at the address `addr`, made of words of width
    /// `word`, that holds `val`.
    pub fn new(kind: IntKind, word: WordSize, addr: usize, val: u128) -> (cell: AtomicCell)
        requires
            kind.holds(val),
        ensures
            cell.wf(),
            cell.value() == val,
            cell.kind == kind,
            cell.word == word,
            cell.addr == addr,
    {
        proof {
            lemma_join_split(val, kind, word);
        }
        AtomicCell { kind, word, addr, words: split(val, kind, word) }
    }

    /// Gives the value and ends the cell.
    pub fn into_inner(self) -> (val: u128)
        requires
            self.wf(),
        ensures
            val == self.value(),
    {
        self.read_words()
    }

    /// Reads the value of a cell that the caller has to itself; no lock is
    /// involved.
    pub fn get(&mut self) -> (val: u128)
        requires
            old(self).wf(),
        ensures
            val == old(self).value(),
            *final(self) == *old(self),
    {
        self.read_words()
    }

    /// Writes the value of a cell that the caller has to itself; no lock is
    /// involved.
    pub fn set(&mut self, val: u128)
        requires
            old(self).wf(),
            old(self).kind.holds(val),
        ensures
            final(self).wf(),
            final(self).value() == val,
            final(self).same_cell(old(self)),
    {
        self.write_words(val);
    }

    /// Reads the storage word by word and puts the words together.
    fn read_words(&self) -> (val: u128)
        requires
            self.wf(),
        ensures
            val == self.value(),
    {
        proof {
            lemma_words_fit(self.kind, self.word, word_count(self.kind, self.word));
        }
        join(&self.words, self.word)
    }

    /// Writes the words of `val` into the storage, one by one.
    fn write_words(&mut self, val: u128)
        requires
            old(self).wf(),
            old(self).kind.holds(val),
        ensures
            final(self).wf(),
            final(self).value() == val,
            final(self).same_cell(old(self)),
    {
        let n = count_words(self.kind, self.word);
        let mut i: usize = 0;
        while i < n
            invariant
                i <= n,
                n == word_count(self.kind, self.word),
                self.same_cell(old(self)),
                self.words@.len() == n,
                forall|j: int| 0 <= j < i ==> self.words@[j] == word_at(val, self.word, j as nat),
            decreases n - i,
        {
            proof {
                lemma_words_fit(self.kind, self.word, i as nat);
            }
            let w = extract(val, self.word, i);
            self.words[i] = w;
            i = i + 1;
        }
        proof {
            assert(self.words@ =~= split_spec(val, self.kind, self.word));
            lemma_join_split(val, self.kind, self.word);
        }
    }

    /// The read of a load that holds no lock: every word is read on its
    /// own, so the result counts only if the stamp is checked afterwards.
    fn optimistic_read(&self) -> (val: u128)
        requires
            self.wf(),
        ensures
            val == self.value(),
    {
        self.read_words()
    }

    /// The read under the lock.
    fn read(&self, guard: &SeqLockWriteGuard) -> (val: u128)
        requires
            self.wf(),
        ensures
            val == self.value(),
    {
        self.read_words()
    }

    /// The write under the lock.
    fn write(&mut self, val: u128, guard: &SeqLockWriteGuard)
        requires
            old(self).wf(),
            old(self).kind.holds(val),
        ensures
            final(self).wf(),
            final(self).value() == val,
            final(self).same_cell(old(self)),
    {
        self.write_words(val);
    }

    /// Takes the lock, lets `request` decide on the value found, writes
    /// what it decided to write, and gives the lock back: with the next
    /// stamp after a write, with the stamp it had otherwise.
    fn perform(&mut self, table: &mut LockTable, request: Request) -> (outcome: Option<Outcome>)
        requires
            old(self).wf(),
            old(table).wf(),
            request.operands_hold(old(self).kind),
        ensures
            final(self).wf(),
            final(table).wf(),
            final(self).same_cell(old(self)),
            busy(old(table)@, old(self).addr) ==> outcome is None && final(self).value() == old(
                self,
            ).value() && final(table)@ == refused(old(table)@, old(self).addr),
            !busy(old(table)@, old(self).addr) ==> {
                let r = request.resolution(old(self).kind, old(self).value());
                &&& outcome == Some(r.outcome)
                &&& final(self).value() == match r.write {
                    Some(new) => new,
                    None => old(self).value(),
                }
                &&& final(table)@ == match r.write {
                    Some(new) => advanced(old(table)@, old(self).addr),
                    None => old(table)@,
                }
            },
    {
        match table.try_write(self.addr) {
            None => None,
            Some(guard) => {
                let cur = self.read(&guard);
                let r = request.resolve(self.kind, cur);
                match r.write {
                    Some(new) => {
                        self.write(new, &guard);
                        table.release(self.addr, guard);
                        assert(table@ =~= advanced(old(table)@, old(self).addr));
                    },
                    None => {
                        table.abort(self.addr, guard);
                        assert(table@ =~= old(table)@);
                    },
                }
                Some(r.outcome)
            },
        }
    }

    /// Reads the value. With no writer at work the read is made without
    /// the lock and the table is left as it was.
    pub fn load(&self, table: &mut LockTable, order: MemoryOrder) -> (val: Option<u128>)
        requires
            self.wf(),
            old(table).wf(),
            load_order_allowed(order),
        ensures
            final(table).wf(),
            busy(old(table)@, self.addr) ==> val is None && final(table)@ == refused(
                old(table)@,
                self.addr,
            ),
            !busy(old(table)@, self.addr) ==> val == Some(self.value()) && final(table)@ == old(
                table,
            )@,
    {
        if let Some(stamp) = table.optimistic_read(self.addr) {
            let val = self.optimistic_read();
            if table.validate_read(self.addr, stamp) {
                return Some(val);
            }
        }
        match table.try_write(self.addr) {
            None => None,
            Some(guard) => {
                let val = self.read(&guard);
                table.abort(self.addr, guard);
                Some(val)
            },
        }
    }

    /// Writes `val`. Returns whether it did: it does not while another
    /// writer holds the lock.
    pub fn store(&mut self, table: &mut LockTable, val: u128, order: MemoryOrder) -> (done: bool)
        requires
            old(self).wf(),
            old(table).wf(),
            old(self).kind.holds(val),
            store_order_allowed(order),
        ensures
            final(self).wf(),
            final(table).wf(),
            final(self).same_cell(old(self)),
            done == !busy(old(table)@, old(self).addr),
            done ==> final(self).value() == val && final(table)@ == advanced(
                old(table)@,
                old(self).addr,
            ),
            !done ==> final(self).value() == old(self).value() && final(table)@ == refused(
                old(table)@,
                old(self).addr,
            ),
    {
        self.perform(table, Request::Store { val, order }).is_some()
    }

    /// Replaces the value `v` by what `op` makes of `v` and `val`, and
    /// returns `v`; nothing while another writer holds the lock.
    pub fn fetch_update(&mut self, table: &mut LockTable, op: RmwOp, val: u128, order: MemoryOrder) -> (prev: Option<u128>)
        requires
            old(self).wf(),
            old(table).wf(),
            old(self).kind.holds(val),
        ensures
            final(self).wf(),
            final(table).wf(),
            updated(old(self), old(table)@, final(self), final(table)@, op, val, prev),
    {
        match self.perform(table, Request::Rmw { op, val, order }) {
            Some(Outcome::Previous(v)) => Some(v),
            _ => None,
        }
    }

    /// Writes `val` and returns the value it replaced; nothing while another
    /// writer holds the lock.
    pub fn swap(&mut self, table: &mut LockTable, val: u128, order: MemoryOrder) -> (prev: Option<u128>)
        requires
            old(self).wf(),
            old(table).wf(),
            old(self).kind.holds(val),
        ensures
            final(self).wf(),
            final(table).wf(),
            updated(old(self), old(table)@, final(self), final(table)@, RmwOp::Swap, val, prev),
    {
        self.fetch_update(table, RmwOp::Swap, val, order)
    }

    /// Adds `val`, wrapping around, and returns the value from before;
    /// nothing while another writer holds the lock.
    pub fn fetch_add(&mut self, table: &mut LockTable, val: u128, order: MemoryOrder) -> (prev: Option<u128>)
        requires
            old(self).wf(),
            old(table).wf(),
            old(self).kind.holds(val),
        ensures
            final(self).wf(),
            final(table).wf(),
            updated(old(self), old(table)@, final(self), final(table)@, RmwOp::Add, val, prev),
    {
        self.fetch_update(table, RmwOp::Add, val, order)
    }

    /// Subtracts `val`, wrapping around, and returns the value from before;
    /// nothing while another writer holds the lock.
    pub fn fetch_sub(&mut self, table: &mut LockTable, val: u128, order: MemoryOrder) -> (prev: Option<u128>)
        requires
            old(self).wf(),
            old(table).wf(),
            old(self).kind.holds(val),
        ensures
            final(self).wf(),
            final(table).wf(),
            updated(old(self), old(table)@, final(self), final(table)@, RmwOp::Sub, val, prev),
    {
        self.fetch_update(table, RmwOp::Sub, val, order)
    }

    /// Replaces the value by its bitwise and with `val`, and returns the
    /// value from before; nothing while another writer holds the lock.
    pub fn fetch_and(&mut self, table: &mut LockTable, val: u128, order: MemoryOrder) -> (prev: Option<u128>)
        requires
            old(self).wf(),
            old(table).wf(),
            old(self).kind.holds(val),
        ensures
            final(self).wf(),
            final(table).wf(),
            updated(old(self), old(table)@, final(self), final(table)@, RmwOp::And, val, prev),
    {
        self.fetch_update(table, RmwOp::And, val, order)
    }

    /// Replaces the value by the negation of its bitwise and with `val`, and
    /// returns the value from before; nothing while another writer holds the
    /// lock.
    pub fn fetch_nand(&mut self, table: &mut LockTable, val: u128, order: MemoryOrder) -> (prev: Option<u128>)
        requires
            old(self).wf(),
            old(table).wf(),
            old(self).kind.holds(val),
        ensures
            final(self).wf(),
            final(table).wf(),
            updated(old(self), old(table)@, final(self), final(table)@, RmwOp::Nand, val, prev),
    {
        self.fetch_update(table, RmwOp::Nand, val, order)
    }

    /// Replaces the value by its bitwise or with `val`, and returns the value
    /// from before; nothing while another writer holds the lock.
    pub fn fetch_or(&mut self, table: &mut LockTable, val: u128, order: MemoryOrder) -> (prev: Option<u128>)
        requires
            old(self).wf(),
            old(table).wf(),
            old(self).kind.holds(val),
        ensures
            final(self).wf(),
            final(table).wf(),
            updated(old(self), old(table)@, final(self), final(table)@, RmwOp::Or, val, prev),
    {
        self.fetch_update(table, RmwOp::Or, val, order)
    }

    /// Replaces the value by its bitwise exclusive or with `val`, and returns
    /// the value from before; nothing while another writer holds the lock.
    pub fn fetch_xor(&mut self, table: &mut LockTable, val: u128, order: MemoryOrder) -> (prev: Option<u128>)
        requires
            old(self).wf(),
            old(table).wf(),
            old(self).kind.holds(val),
        ensures
            final(self).wf(),
            final(table).wf(),
            updated(old(self), old(table)@, final(self), final(table)@, RmwOp::Xor, val, prev),
    {
        self.fetch_update(table, RmwOp::Xor, val, order)
    }

    /// Replaces the value by the greater of it and `val`, in the order of the
    /// cell's type, and returns the value from before; nothing while another
    /// writer holds the lock.
    pub fn fetch_max(&mut self, table: &mut LockTable, val: u128, order: MemoryOrder) -> (prev: Option<u128>)
        requires
            old(self).wf(),
            old(table).wf(),
            old(self).kind.holds(val),
        ensures
            final(self).wf(),
            final(table).wf(),
            updated(old(self), old(table)@, final(self), final(table)@, RmwOp::Max, val, prev),
    {
        self.fetch_update(table, RmwOp::Max, val, order)
    }

    /// Replaces the value by the lesser of it and `val`, in the order of the
    /// cell's type, and returns the value from before; nothing while another
    /// writer holds the lock.
    pub fn fetch_min(&mut self, table: &mut LockTable, val: u128, order: MemoryOrder) -> (prev: Option<u128>)
        requires
            old(self).wf(),
            old(table).wf(),
            old(self).kind.holds(val),
        ensures
            final(self).wf(),
            final(table).wf(),
            updated(old(self), old(table)@, final(self), final(table)@, RmwOp::Min, val, prev),
    {
        self.fetch_update(table, RmwOp::Min, val, order)
    }

    /// Writes `new` if the value is `current`. Returns the value found:
    /// as `Ok` if it was `current` and `new` was written, as `Err` if it was
    /// not and nothing was written; nothing while another writer holds the
    /// lock. A failed exchange leaves the lock's stamp as it was.
    pub fn compare_exchange(
        &mut self,
        table: &mut LockTable,
        current: u128,
        new: u128,
        success: MemoryOrder,
        failure: MemoryOrder,
    ) -> (found: Option<Result<u128, u128>>)
        requires
            old(self).wf(),
            old(table).wf(),
            old(self).kind.holds(current),
            old(self).kind.holds(new),
            compare_exchange_order_allowed(success, failure),
        ensures
            final(self).wf(),
            final(table).wf(),
            final(self).same_cell(old(self)),
            found is Some <==> !busy(old(table)@, old(self).addr),
            found is None ==> final(self).value() == old(self).value() && final(table)@ == refused(
                old(table)@,
                old(self).addr,
            ),
            found is Some && old(self).value() == current ==> found == Some(
                Ok::<u128, u128>(current),
            ) && final(self).value() == new && final(table)@ == advanced(
                old(table)@,
                old(self).addr,
            ),
            found is Some && old(self).value() != current ==> found == Some(
                Err::<u128, u128>(old(self).value()),
            ) && final(self).value() == old(self).value() && final(table)@ == old(table)@,
    {
        match self.perform(table, Request::CompareExchange { current, new, success, failure }) {
            Some(Outcome::Exchanged(v)) => Some(Ok(v)),
            Some(Outcome::Mismatch(v)) => Some(Err(v)),
            _ => None,
        }
    }

    /// A compare-exchange that is allowed to fail although the value is
    /// `current`. This one never does.
    pub fn compare_exchange_weak(
        &mut self,
        table: &mut LockTable,
        current: u128,
        new: u128,
        success: MemoryOrder,
        failure: MemoryOrder,
    ) -> (found: Option<Result<u128, u128>>)
        requires
            old(self).wf(),
            old(table).wf(),
            old(self).kind.holds(current),
            old(self).kind.holds(new),
            compare_exchange_order_allowed(success, failure),
        ensures
            final(self).wf(),
            final(table).wf(),
            final(self).same_cell(old(self)),
            found is Some <==> !busy(old(table)@, old(self).addr),
            found is None ==> final(self).value() == old(self).value() && final(table)@ == refused(
                old(table)@,
                old(self).addr,
            ),
            found is Some && old(self).value() == current ==> found == Some(
                Ok::<u128, u128>(current),
            ) && final(self).value() == new && final(table)@ == advanced(
                old(table)@,
                old(self).addr,
            ),
            found is Some && old(self).value() != current ==> found == Some(
                Err::<u128, u128>(old(self).value()),
            ) && final(self).value() == old(self).value() && final(table)@ == old(table)@,
    {
        self.compare_exchange(table, current, new, success, failure)
    }
}

} // verus!
