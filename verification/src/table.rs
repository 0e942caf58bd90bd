//! The striped table: a fixed pool of sequence locks, shared by all cells.
use vstd::prelude::*;
use crate::seq_lock::SeqLock;
use crate::seq_lock::SeqLockWriteGuard;
use crate::seq_lock::LOCKED;
use crate::seq_lock::is_odd;
use crate::seq_lock::next_stamp;
use crate::seq_lock::stamp_of;

verus! {

/// The number of locks. It is prime, so that addresses of any alignment
/// are dispersed over the whole table.
pub const LEN: usize = 67;

/// The slot that serves the address `addr`.
pub open spec fn slot_of(addr: usize) -> int {
    addr as int % LEN as int
}

/// The pool of locks.
pub struct LockTable {
    /// The locks, one for each slot.
    pub locks: Vec<SeqLock>,
}

impl View for LockTable {
    type V = Seq<usize>;

    /// The counter of each slot.
    open spec fn view(&self) -> Seq<usize> {
        Seq::new(self.locks@.len(), |i: int| self.locks@[i].state)
    }
}

/// Routes the address `addr` to its lock.
pub fn lock(table: &LockTable, addr: usize) -> (l: &SeqLock)
    requires
        table.wf(),
    ensures
        l.state == table@[slot_of(addr)],
{
    &table.locks[addr % LEN]
}

impl LockTable {
    /// Whether the table has all its locks.
    pub open spec fn wf(&self) -> bool {
        self.locks@.len() == LEN
    }

    /// A table whose locks are all free, with the first stamp.
    pub fn new() -> (table: LockTable)
        ensures
            table.wf(),
            forall|i: int| 0 <= i < LEN ==> table@[i] == 0,
    {
        let mut locks: Vec<SeqLock> = Vec::new();
        let mut i: usize = 0;
        while i < LEN
            invariant
                i <= LEN,
                locks@.len() == i,
                forall|j: int| 0 <= j < i ==> (#[trigger] locks@[j]).state == 0,
            decreases LEN - i,
        {
            locks.push(SeqLock::new());
            i = i + 1;
        }
        LockTable { locks }
    }

    /// The slot that serves the address `addr`.
    pub fn slot(addr: usize) -> (slot: usize)
        ensures
            slot == slot_of(addr),
            slot < LEN,
    {
        addr % LEN
    }

    /// Begins an optimistic read at the lock of `addr`.
    pub fn optimistic_read(&self, addr: usize) -> (stamp: Option<usize>)
        requires
            self.wf(),
        ensures
            stamp == stamp_of(self@[slot_of(addr)]),
    {
        lock(self, addr).optimistic_read()
    }

    /// Ends an optimistic read at the lock of `addr`.
    pub fn validate_read(&self, addr: usize, stamp: usize) -> (valid: bool)
        requires
            self.wf(),
        ensures
            valid == (self@[slot_of(addr)] == stamp),
    {
        lock(self, addr).validate_read(stamp)
    }

    /// Makes one attempt to take the lock of `addr` for writing. No other
    /// slot is touched.
    pub fn try_write(&mut self, addr: usize) -> (guard: Option<SeqLockWriteGuard>)
        requires
            old(self).wf(),
        ensures
            final(self).wf(),
            final(self)@ == old(self)@.update(slot_of(addr), LOCKED),
            is_odd(old(self)@[slot_of(addr)]) ==> guard is None,
            !is_odd(old(self)@[slot_of(addr)]) ==> guard == Some(
                SeqLockWriteGuard { state: old(self)@[slot_of(addr)] },
            ),
    {
        let slot = addr % LEN;
        let mut l = self.locks[slot];
        let guard = l.try_write();
        self.locks.set(slot, l);
        assert(self@ =~= old(self)@.update(slot_of(addr), LOCKED));
        guard
    }

    /// Gives the lock of `addr` back after a write. No other slot is touched.
    pub fn release(&mut self, addr: usize, guard: SeqLockWriteGuard)
        requires
            old(self).wf(),
        ensures
            final(self).wf(),
            final(self)@ == old(self)@.update(slot_of(addr), next_stamp(guard.state)),
    {
        let slot = addr % LEN;
        let mut l = self.locks[slot];
        let ghost stamp = guard.state;
        l.release(guard);
        self.locks.set(slot, l);
        assert(self@ =~= old(self)@.update(slot_of(addr), next_stamp(stamp)));
    }

    /// Gives the lock of `addr` back when nothing was written. No other slot
    /// is touched.
    pub fn abort(&mut self, addr: usize, guard: SeqLockWriteGuard)
        requires
            old(self).wf(),
        ensures
            final(self).wf(),
            final(self)@ == old(self)@.update(slot_of(addr), guard.state),
    {
        let slot = addr % LEN;
        let mut l = self.locks[slot];
        let ghost stamp = guard.state;
        l.abort(guard);
        self.locks.set(slot, l);
        assert(self@ =~= old(self)@.update(slot_of(addr), stamp));
    }
}

} // verus!
