//! The sequence lock: one counter that readers check and writers advance.
use vstd::prelude::*;

verus! {

/// The counter's value while a writer holds the lock.
pub const LOCKED: usize = 1;

/// Whether the counter value `state` says that a writer holds the lock.
pub open spec fn is_odd(state: usize) -> bool {
    state % 2 == 1
}

/// The stamp that follows `stamp`: two more, wrapping around.
pub open spec fn next_stamp(stamp: usize) -> usize {
    if stamp + 2 > usize::MAX {
        (stamp + 2 - usize::MAX - 1) as usize
    } else {
        (stamp + 2) as usize
    }
}

/// What a reader learns from the counter value `state`: the stamp to
/// validate against later, or nothing while a writer holds the lock.
pub open spec fn stamp_of(state: usize) -> Option<usize> {
    if is_odd(state) {
        None
    } else {
        Some(state)
    }
}

/// Reads the counter value `state` as a reader does.
pub fn read_stamp(state: usize) -> (stamp: Option<usize>)
    ensures
        stamp == stamp_of(state),
{
    if state % 2 == 1 {
        None
    } else {
        Some(state)
    }
}

/// The right to write what a lock protects, and the stamp the lock had
/// when it was taken.
#[derive(Debug)]
pub struct SeqLockWriteGuard {
    /// The stamp to restore or to advance on release.
    pub state: usize,
}

impl SeqLockWriteGuard {
    /// What a writer learns from `previous`, the counter value that its
    /// exchange with `LOCKED` brought back: the lock, unless another writer
    /// held it.
    pub fn acquired(previous: usize) -> (guard: Option<SeqLockWriteGuard>)
        ensures
            is_odd(previous) ==> guard is None,
            !is_odd(previous) ==> guard == Some(SeqLockWriteGuard { state: previous }),
    {
        if previous % 2 == 1 {
            None
        } else {
            Some(SeqLockWriteGuard { state: previous })
        }
    }

    /// The counter value that gives the lock back after a write: the next
    /// stamp, so that readers who began before the write fail to validate.
    pub fn released(self) -> (state: usize)
        ensures
            state == next_stamp(self.state),
    {
        self.state.wrapping_add(2)
    }

    /// The counter value that gives the lock back when nothing was written:
    /// the stamp as it was, so that no reader is disturbed.
    pub fn aborted(self) -> (state: usize)
        ensures
            state == self.state,
    {
        self.state
    }
}

/// A sequence lock.
///
/// An even counter is a stamp, and says that what the lock protects is
/// consistent; an odd one says that a write is in progress.
#[derive(Clone, Copy, Debug, PartialEq, Eq, Structural)]
pub struct SeqLock {
    /// The counter.
    pub state: usize,
}

impl SeqLock {
    /// Whether a writer holds the lock.
    pub open spec fn is_locked(self) -> bool {
        is_odd(self.state)
    }

    /// An unlocked lock with the first stamp.
    pub fn new() -> (lock: SeqLock)
        ensures
            lock.state == 0,
    {
        SeqLock { state: 0 }
    }

    /// Begins an optimistic read: the current stamp, or nothing while a
    /// writer holds the lock.
    pub fn optimistic_read(&self) -> (stamp: Option<usize>)
        ensures
            stamp == stamp_of(self.state),
    {
        read_stamp(self.state)
    }

    /// Ends an optimistic read: whether the stamp is still `stamp`, so that
    /// what was read in between is what the lock protected all along.
    pub fn validate_read(&self, stamp: usize) -> (valid: bool)
        ensures
            valid == (self.state == stamp),
    {
        self.state == stamp
    }

    /// Makes one attempt to take the lock for writing, by exchanging the
    /// counter with `LOCKED`. It fails while another writer holds the lock.
    pub fn try_write(&mut self) -> (guard: Option<SeqLockWriteGuard>)
        ensures
            final(self).state == LOCKED,
            old(self).is_locked() ==> guard is None,
            !old(self).is_locked() ==> guard == Some(SeqLockWriteGuard { state: old(self).state }),
    {
        let previous = self.state;
        self.state = LOCKED;
        SeqLockWriteGuard::acquired(previous)
    }

    /// Gives the lock back after a write and advances the stamp.
    pub fn release(&mut self, guard: SeqLockWriteGuard)
        ensures
            final(self).state == next_stamp(guard.state),
    {
        self.state = guard.released();
    }

    /// Gives the lock back when nothing was written, with the stamp it had.
    pub fn abort(&mut self, guard: SeqLockWriteGuard)
        ensures
            final(self).state == guard.state,
    {
        self.state = guard.aborted();
    }
}

/// Releasing keeps the counter's meaning, also where the stamp wraps
/// around: from an even stamp the next one is even too, is another one,
/// and is never mistaken for a held lock.
pub proof fn lemma_next_stamp_even(stamp: usize)
    requires
        !is_odd(stamp),
    ensures
        !is_odd(next_stamp(stamp)),
        next_stamp(stamp) != stamp,
        next_stamp(stamp) != LOCKED,
{
    assert(usize::MAX == 0xffff_ffff || usize::MAX == 0xffff_ffff_ffff_ffff) by {
        vstd::layout::unsigned_int_max_values();
    }
}

} // verus!
