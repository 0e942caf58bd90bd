use atomic_fallback::cell::AtomicCell;
use atomic_fallback::chunks::WordSize;
use atomic_fallback::kind::{i64_of_raw, raw_of_i128, raw_of_i64, IntKind, MASK_64};
use atomic_fallback::order::MemoryOrder;
use atomic_fallback::rmw::RmwOp;
use atomic_fallback::seq_lock::LOCKED;
use atomic_fallback::table::{lock, LockTable};

const ADDR: usize = 0x7f00_1230;

const LOAD_ORDERS: [MemoryOrder; 3] = [MemoryOrder::Relaxed, MemoryOrder::Acquire, MemoryOrder::SeqCst];

const STORE_ORDERS: [MemoryOrder; 3] = [MemoryOrder::Relaxed, MemoryOrder::Release, MemoryOrder::SeqCst];

const ALL_ORDERS: [MemoryOrder; 5] = [
    MemoryOrder::Relaxed,
    MemoryOrder::Acquire,
    MemoryOrder::Release,
    MemoryOrder::AcqRel,
    MemoryOrder::SeqCst,
];

const LAYOUTS: [(IntKind, WordSize); 8] = [
    (IntKind::I64, WordSize::W32),
    (IntKind::I64, WordSize::W64),
    (IntKind::U64, WordSize::W32),
    (IntKind::U64, WordSize::W64),
    (IntKind::I128, WordSize::W32),
    (IntKind::I128, WordSize::W64),
    (IntKind::U128, WordSize::W32),
    (IntKind::U128, WordSize::W64),
];

fn stamp(table: &LockTable) -> usize {
    lock(table, ADDR).state
}

#[test]
fn new_cell_holds_its_value() {
    for (kind, word) in LAYOUTS {
        let cell = AtomicCell::new(kind, word, ADDR, 5);
        let mut table = LockTable::new();
        assert_eq!(cell.load(&mut table, MemoryOrder::SeqCst), Some(5));
        assert_eq!(cell.into_inner(), 5);
    }
}

#[test]
fn get_and_set_need_no_lock() {
    let mut cell = AtomicCell::new(IntKind::U128, WordSize::W32, ADDR, 5);
    assert_eq!(cell.get(), 5);
    cell.set(u128::MAX);
    assert_eq!(cell.get(), u128::MAX);
    assert_eq!(cell.words, vec![0xffff_ffff, 0xffff_ffff, 0xffff_ffff, 0xffff_ffff]);
    cell.set(1 << 64);
    assert_eq!(cell.words, vec![0, 0, 1, 0]);
    assert_eq!(cell.into_inner(), 1 << 64);
}

#[test]
fn store_then_load_gives_the_value_back() {
    let values: [u128; 5] = [0, 1, MASK_64, 0x8000_0000_0000_0000, 0x0123_4567_89ab_cdef];
    for (kind, word) in LAYOUTS {
        for store_order in STORE_ORDERS {
            for load_order in LOAD_ORDERS {
                for v in values {
                    let mut table = LockTable::new();
                    let mut cell = AtomicCell::new(kind, word, ADDR, 99);
                    assert!(cell.store(&mut table, v, store_order));
                    assert_eq!(cell.load(&mut table, load_order), Some(v));
                }
            }
        }
    }
}

#[test]
fn store_then_load_of_wide_values() {
    let values: [u128; 4] = [
        u128::MAX,
        1 << 127,
        0x0123_4567_89ab_cdef_0fed_cba9_8765_4321,
        0xffff_ffff_0000_0000_ffff_ffff_0000_0000,
    ];
    for kind in [IntKind::I128, IntKind::U128] {
        for word in [WordSize::W32, WordSize::W64] {
            for v in values {
                let mut table = LockTable::new();
                let mut cell = AtomicCell::new(kind, word, ADDR, 0);
                assert!(cell.store(&mut table, v, MemoryOrder::Release));
                assert_eq!(cell.load(&mut table, MemoryOrder::Acquire), Some(v));
                assert_eq!(cell.get(), v);
            }
        }
    }
}

#[test]
fn load_leaves_the_table_alone() {
    let mut table = LockTable::new();
    let mut cell = AtomicCell::new(IntKind::U64, WordSize::W32, ADDR, 5);
    assert!(cell.store(&mut table, 6, MemoryOrder::SeqCst));
    assert_eq!(stamp(&table), 2);
    assert_eq!(cell.load(&mut table, MemoryOrder::SeqCst), Some(6));
    assert_eq!(cell.load(&mut table, MemoryOrder::Relaxed), Some(6));
    assert_eq!(stamp(&table), 2);
}

#[test]
fn every_write_advances_the_stamp() {
    let mut table = LockTable::new();
    let mut cell = AtomicCell::new(IntKind::U64, WordSize::W64, ADDR, 5);
    assert!(cell.store(&mut table, 6, MemoryOrder::SeqCst));
    assert_eq!(stamp(&table), 2);
    assert_eq!(cell.swap(&mut table, 7, MemoryOrder::SeqCst), Some(6));
    assert_eq!(stamp(&table), 4);
    assert_eq!(cell.fetch_add(&mut table, 0, MemoryOrder::SeqCst), Some(7));
    assert_eq!(stamp(&table), 6);
    assert_eq!(
        cell.compare_exchange(&mut table, 7, 8, MemoryOrder::SeqCst, MemoryOrder::SeqCst),
        Some(Ok(7))
    );
    assert_eq!(stamp(&table), 8);
}

#[test]
fn swap_returns_the_value_it_replaced() {
    for (kind, word) in LAYOUTS {
        for order in ALL_ORDERS {
            let mut table = LockTable::new();
            let mut cell = AtomicCell::new(kind, word, ADDR, 5);
            assert_eq!(cell.swap(&mut table, 10, order), Some(5));
            assert_eq!(cell.swap(&mut table, 5, order), Some(10));
            assert_eq!(cell.get(), 5);
        }
    }
}

#[test]
fn compare_exchange_succeeds_on_the_expected_value() {
    for (kind, word) in LAYOUTS {
        let mut table = LockTable::new();
        let mut cell = AtomicCell::new(kind, word, ADDR, 5);
        let found = cell.compare_exchange(&mut table, 5, 10, MemoryOrder::Acquire, MemoryOrder::Relaxed);
        assert_eq!(found, Some(Ok(5)));
        assert_eq!(cell.load(&mut table, MemoryOrder::Relaxed), Some(10));
        assert_eq!(stamp(&table), 2);
    }
}

#[test]
fn compare_exchange_fails_on_another_value() {
    for (kind, word) in LAYOUTS {
        let mut table = LockTable::new();
        let mut cell = AtomicCell::new(kind, word, ADDR, 10);
        let found = cell.compare_exchange(&mut table, 6, 12, MemoryOrder::SeqCst, MemoryOrder::Acquire);
        assert_eq!(found, Some(Err(10)));
        assert_eq!(cell.load(&mut table, MemoryOrder::Relaxed), Some(10));
        assert_eq!(stamp(&table), 0);
    }
}

#[test]
fn compare_exchange_weak_never_fails_by_itself() {
    let mut table = LockTable::new();
    let mut cell = AtomicCell::new(IntKind::I64, WordSize::W32, ADDR, 4);
    assert_eq!(
        cell.compare_exchange_weak(&mut table, 6, 8, MemoryOrder::SeqCst, MemoryOrder::Acquire),
        Some(Err(4))
    );
    let mut old = cell.load(&mut table, MemoryOrder::Relaxed).unwrap();
    loop {
        let new = old * 2;
        match cell.compare_exchange_weak(&mut table, old, new, MemoryOrder::SeqCst, MemoryOrder::Relaxed) {
            Some(Ok(_)) => break,
            Some(Err(x)) => old = x,
            None => unreachable!(),
        }
    }
    assert_eq!(cell.load(&mut table, MemoryOrder::Relaxed), Some(8));
}

#[test]
fn fetch_add_and_fetch_sub() {
    for (kind, word) in LAYOUTS {
        for order in ALL_ORDERS {
            let mut table = LockTable::new();
            let mut cell = AtomicCell::new(kind, word, ADDR, 0);
            assert_eq!(cell.fetch_add(&mut table, 10, order), Some(0));
            assert_eq!(cell.load(&mut table, MemoryOrder::SeqCst), Some(10));
            assert_eq!(cell.fetch_sub(&mut table, 3, order), Some(10));
            assert_eq!(cell.load(&mut table, MemoryOrder::SeqCst), Some(7));
        }
    }
}

#[test]
fn fetch_add_wraps_around() {
    let mut table = LockTable::new();
    let mut cell = AtomicCell::new(IntKind::U64, WordSize::W32, ADDR, MASK_64);
    assert_eq!(cell.fetch_add(&mut table, 1, MemoryOrder::SeqCst), Some(MASK_64));
    assert_eq!(cell.get(), 0);
    assert_eq!(cell.fetch_sub(&mut table, 1, MemoryOrder::SeqCst), Some(0));
    assert_eq!(cell.get(), MASK_64);
    let mut cell = AtomicCell::new(IntKind::I64, WordSize::W64, ADDR, raw_of_i64(i64::MAX));
    cell.fetch_add(&mut table, 1, MemoryOrder::SeqCst);
    assert_eq!(i64_of_raw(cell.get()), i64::MIN);
    let mut cell = AtomicCell::new(IntKind::U128, WordSize::W64, ADDR, u128::MAX);
    assert_eq!(cell.fetch_add(&mut table, 2, MemoryOrder::SeqCst), Some(u128::MAX));
    assert_eq!(cell.get(), 1);
}

#[test]
fn fetch_and_or_xor_nand() {
    for (kind, word) in LAYOUTS {
        let mut table = LockTable::new();
        let mut cell = AtomicCell::new(kind, word, ADDR, 0b101101);
        assert_eq!(cell.fetch_and(&mut table, 0b110011, MemoryOrder::SeqCst), Some(0b101101));
        assert_eq!(cell.get(), 0b100001);
        assert_eq!(cell.fetch_or(&mut table, 0b110011, MemoryOrder::SeqCst), Some(0b100001));
        assert_eq!(cell.get(), 0b110011);
        assert_eq!(cell.fetch_xor(&mut table, 0b101010, MemoryOrder::SeqCst), Some(0b110011));
        assert_eq!(cell.get(), 0b011001);
        assert_eq!(cell.fetch_nand(&mut table, 0b001011, MemoryOrder::SeqCst), Some(0b011001));
        assert_eq!(cell.get(), kind.all_ones() - 0b001001);
    }
}

#[test]
fn fetch_max_and_fetch_min() {
    let mut table = LockTable::new();
    let mut cell = AtomicCell::new(IntKind::U64, WordSize::W32, ADDR, 23);
    assert_eq!(cell.fetch_max(&mut table, 22, MemoryOrder::SeqCst), Some(23));
    assert_eq!(cell.get(), 23);
    assert_eq!(cell.fetch_max(&mut table, 24, MemoryOrder::SeqCst), Some(23));
    assert_eq!(cell.get(), 24);
    assert_eq!(cell.fetch_min(&mut table, 25, MemoryOrder::SeqCst), Some(24));
    assert_eq!(cell.get(), 24);
    assert_eq!(cell.fetch_min(&mut table, 21, MemoryOrder::SeqCst), Some(24));
    assert_eq!(cell.get(), 21);
}

#[test]
fn fetch_max_and_fetch_min_of_signed_values() {
    let mut table = LockTable::new();
    let mut cell = AtomicCell::new(IntKind::I64, WordSize::W64, ADDR, raw_of_i64(1));
    assert_eq!(cell.fetch_max(&mut table, raw_of_i64(-1), MemoryOrder::SeqCst), Some(1));
    assert_eq!(i64_of_raw(cell.get()), 1);
    assert_eq!(cell.fetch_min(&mut table, raw_of_i64(-1), MemoryOrder::SeqCst), Some(1));
    assert_eq!(i64_of_raw(cell.get()), -1);
    let mut cell = AtomicCell::new(IntKind::I128, WordSize::W32, ADDR, raw_of_i128(-7));
    cell.fetch_max(&mut table, raw_of_i128(-8), MemoryOrder::SeqCst);
    assert_eq!(cell.get(), raw_of_i128(-7));
    cell.fetch_min(&mut table, raw_of_i128(-8), MemoryOrder::SeqCst);
    assert_eq!(cell.get(), raw_of_i128(-8));
    let mut cell = AtomicCell::new(IntKind::U64, WordSize::W64, ADDR, 1);
    cell.fetch_max(&mut table, raw_of_i64(-1), MemoryOrder::SeqCst);
    assert_eq!(cell.get(), MASK_64);
}

#[test]
fn fetch_update_by_name_of_the_operation() {
    let mut table = LockTable::new();
    let mut cell = AtomicCell::new(IntKind::U64, WordSize::W64, ADDR, 12);
    assert_eq!(cell.fetch_update(&mut table, RmwOp::Sub, 2, MemoryOrder::Relaxed), Some(12));
    assert_eq!(cell.fetch_update(&mut table, RmwOp::Xor, 3, MemoryOrder::Relaxed), Some(10));
    assert_eq!(cell.get(), 9);
}

#[test]
fn nothing_is_done_while_the_lock_is_held() {
    let mut table = LockTable::new();
    let mut cell = AtomicCell::new(IntKind::U64, WordSize::W32, ADDR, 5);
    let guard = table.try_write(ADDR).unwrap();
    assert_eq!(cell.load(&mut table, MemoryOrder::SeqCst), None);
    assert!(!cell.store(&mut table, 6, MemoryOrder::SeqCst));
    assert_eq!(cell.swap(&mut table, 6, MemoryOrder::SeqCst), None);
    assert_eq!(cell.fetch_add(&mut table, 6, MemoryOrder::SeqCst), None);
    assert_eq!(
        cell.compare_exchange(&mut table, 5, 6, MemoryOrder::SeqCst, MemoryOrder::SeqCst),
        None
    );
    assert_eq!(stamp(&table), LOCKED);
    assert_eq!(cell.get(), 5);
    table.abort(ADDR, guard);
    assert_eq!(stamp(&table), 0);
    assert_eq!(cell.load(&mut table, MemoryOrder::SeqCst), Some(5));
    assert!(cell.store(&mut table, 6, MemoryOrder::SeqCst));
    assert_eq!(cell.get(), 6);
}

#[test]
fn a_lock_of_another_slot_does_not_matter() {
    let mut table = LockTable::new();
    let mut cell = AtomicCell::new(IntKind::U64, WordSize::W32, ADDR, 5);
    let guard = table.try_write(ADDR + 1).unwrap();
    assert_eq!(cell.load(&mut table, MemoryOrder::SeqCst), Some(5));
    assert_eq!(cell.fetch_add(&mut table, 1, MemoryOrder::SeqCst), Some(5));
    assert_eq!(stamp(&table), 2);
    assert_eq!(lock(&table, ADDR + 1).state, LOCKED);
    table.release(ADDR + 1, guard);
    assert_eq!(lock(&table, ADDR + 1).state, 2);
}

#[test]
fn cells_that_share_a_slot_share_its_stamp() {
    let mut table = LockTable::new();
    let mut a = AtomicCell::new(IntKind::U64, WordSize::W64, ADDR, 1);
    let mut b = AtomicCell::new(IntKind::U128, WordSize::W64, ADDR + 67, 2);
    assert!(a.store(&mut table, 3, MemoryOrder::SeqCst));
    assert!(b.store(&mut table, 4, MemoryOrder::SeqCst));
    assert_eq!(stamp(&table), 4);
    assert_eq!(a.get(), 3);
    assert_eq!(b.get(), 4);
}
