use atomic_fallback::seq_lock::{read_stamp, SeqLock, SeqLockWriteGuard, LOCKED};
use atomic_fallback::table::{lock, LockTable, LEN};

#[test]
fn a_new_lock_is_free() {
    let l = SeqLock::new();
    assert_eq!(l.state, 0);
    assert_eq!(l.optimistic_read(), Some(0));
    assert!(l.validate_read(0));
    assert!(!l.validate_read(2));
}

#[test]
fn an_odd_counter_gives_no_stamp() {
    assert_eq!(read_stamp(0), Some(0));
    assert_eq!(read_stamp(2), Some(2));
    assert_eq!(read_stamp(1), None);
    assert_eq!(read_stamp(3), None);
    assert_eq!(read_stamp(usize::MAX), None);
    assert_eq!(read_stamp(usize::MAX - 1), Some(usize::MAX - 1));
}

#[test]
fn taking_the_lock_makes_the_counter_odd() {
    let mut l = SeqLock::new();
    let guard = l.try_write().unwrap();
    assert_eq!(guard.state, 0);
    assert_eq!(l.state, LOCKED);
    assert_eq!(l.optimistic_read(), None);
    assert!(l.try_write().is_none());
    assert_eq!(l.state, LOCKED);
}

#[test]
fn release_advances_the_stamp_by_two() {
    let mut l = SeqLock::new();
    let guard = l.try_write().unwrap();
    l.release(guard);
    assert_eq!(l.state, 2);
    assert_eq!(l.optimistic_read(), Some(2));
    assert!(!l.validate_read(0));
    let guard = l.try_write().unwrap();
    assert_eq!(guard.state, 2);
    l.release(guard);
    assert_eq!(l.state, 4);
}

#[test]
fn abort_restores_the_stamp() {
    let mut l = SeqLock::new();
    let guard = l.try_write().unwrap();
    l.release(guard);
    let stamp = l.optimistic_read().unwrap();
    let guard = l.try_write().unwrap();
    l.abort(guard);
    assert_eq!(l.state, 2);
    assert!(l.validate_read(stamp));
}

#[test]
fn the_stamp_wraps_around() {
    let guard = SeqLockWriteGuard { state: usize::MAX - 1 };
    assert_eq!(guard.released(), 0);
    let guard = SeqLockWriteGuard { state: usize::MAX - 3 };
    assert_eq!(guard.released(), usize::MAX - 1);
    let guard = SeqLockWriteGuard { state: 8 };
    assert_eq!(guard.aborted(), 8);
}

#[test]
fn what_an_exchange_brought_back() {
    assert!(SeqLockWriteGuard::acquired(1).is_none());
    assert!(SeqLockWriteGuard::acquired(7).is_none());
    assert_eq!(SeqLockWriteGuard::acquired(0).unwrap().state, 0);
    assert_eq!(SeqLockWriteGuard::acquired(6).unwrap().state, 6);
}

#[test]
fn the_table_has_a_prime_number_of_locks() {
    assert_eq!(LEN, 67);
    for d in 2..LEN {
        assert_ne!(LEN % d, 0);
    }
    let table = LockTable::new();
    assert_eq!(table.locks.len(), 67);
    for l in table.locks.iter() {
        assert_eq!(l.state, 0);
    }
}

#[test]
fn an_address_goes_to_its_remainder() {
    assert_eq!(LockTable::slot(0), 0);
    assert_eq!(LockTable::slot(66), 66);
    assert_eq!(LockTable::slot(67), 0);
    assert_eq!(LockTable::slot(68), 1);
    assert_eq!(LockTable::slot(0x1000), 0x1000 % 67);
    assert_eq!(LockTable::slot(usize::MAX), usize::MAX % 67);
}

#[test]
fn lock_routes_to_the_slot_of_the_address() {
    let mut table = LockTable::new();
    let guard = table.try_write(5).unwrap();
    table.release(5, guard);
    assert_eq!(lock(&table, 5).state, 2);
    assert_eq!(lock(&table, 5 + 67).state, 2);
    assert_eq!(lock(&table, 5 + 67 * 1000).state, 2);
    assert_eq!(lock(&table, 6).state, 0);
    assert_eq!(lock(&table, 4).state, 0);
}

#[test]
fn addresses_of_every_alignment_reach_every_lock() {
    for stride in [1usize, 2, 4, 8, 16, 64, 4096] {
        let mut seen = [false; 67];
        for i in 0..67 {
            seen[LockTable::slot(i * stride)] = true;
        }
        assert!(seen.iter().all(|s| *s));
    }
}

#[test]
fn a_table_operation_touches_one_slot_only() {
    let mut table = LockTable::new();
    let guard = table.try_write(10).unwrap();
    for addr in 0..67 {
        let expected = if addr == 10 { LOCKED } else { 0 };
        assert_eq!(lock(&table, addr).state, expected);
    }
    assert_eq!(table.optimistic_read(10), None);
    assert_eq!(table.optimistic_read(77), None);
    assert_eq!(table.optimistic_read(11), Some(0));
    assert!(table.try_write(77).is_none());
    let other = table.try_write(11).unwrap();
    table.abort(11, other);
    table.release(10, guard);
    for addr in 0..67 {
        let expected = if addr == 10 { 2 } else { 0 };
        assert_eq!(lock(&table, addr).state, expected);
    }
    assert!(table.validate_read(10, 2));
    assert!(!table.validate_read(10, 0));
    assert!(table.validate_read(11, 0));
}
