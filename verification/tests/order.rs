use atomic_fallback::machine::{Machine, SpawnError};
use atomic_fallback::chunks::WordSize;
use atomic_fallback::kind::IntKind;
use atomic_fallback::order::{
    is_compare_exchange_order, is_load_order, is_order_for, is_store_order, MemoryOrder, OpClass,
};
use atomic_fallback::request::Request;
use atomic_fallback::rmw::RmwOp;

const ALL: [MemoryOrder; 5] = [
    MemoryOrder::Relaxed,
    MemoryOrder::Acquire,
    MemoryOrder::Release,
    MemoryOrder::AcqRel,
    MemoryOrder::SeqCst,
];

fn machine_with_cell() -> Machine {
    let mut m = Machine::new();
    assert_eq!(m.add_cell(IntKind::U64, WordSize::W64, 0x1000, 7), Some(0));
    m
}

fn assert_untouched(m: &Machine) {
    assert_eq!(m.thread_count(), 0);
    assert_eq!(m.peek(0), 7);
    assert_eq!(m.lock_state(0x1000), 0);
}

#[test]
fn load_accepts_relaxed() {
    assert!(is_load_order(MemoryOrder::Relaxed));
}

#[test]
fn load_accepts_acquire() {
    assert!(is_load_order(MemoryOrder::Acquire));
}

#[test]
fn load_accepts_seq_cst() {
    assert!(is_load_order(MemoryOrder::SeqCst));
}

#[test]
fn load_rejects_release() {
    assert!(!is_load_order(MemoryOrder::Release));
    let mut m = machine_with_cell();
    let r = m.spawn(0, Request::Load { order: MemoryOrder::Release });
    assert_eq!(r, Err(SpawnError::IllegalOrder));
    assert_untouched(&m);
}

#[test]
fn load_rejects_acq_rel() {
    assert!(!is_load_order(MemoryOrder::AcqRel));
    let mut m = machine_with_cell();
    let r = m.spawn(0, Request::Load { order: MemoryOrder::AcqRel });
    assert_eq!(r, Err(SpawnError::IllegalOrder));
    assert_untouched(&m);
}

#[test]
fn store_accepts_relaxed() {
    assert!(is_store_order(MemoryOrder::Relaxed));
}

#[test]
fn store_accepts_release() {
    assert!(is_store_order(MemoryOrder::Release));
}

#[test]
fn store_accepts_seq_cst() {
    assert!(is_store_order(MemoryOrder::SeqCst));
}

#[test]
fn store_rejects_acquire() {
    assert!(!is_store_order(MemoryOrder::Acquire));
    let mut m = machine_with_cell();
    let r = m.spawn(0, Request::Store { val: 1, order: MemoryOrder::Acquire });
    assert_eq!(r, Err(SpawnError::IllegalOrder));
    assert_untouched(&m);
}

#[test]
fn store_rejects_acq_rel() {
    assert!(!is_store_order(MemoryOrder::AcqRel));
    let mut m = machine_with_cell();
    let r = m.spawn(0, Request::Store { val: 1, order: MemoryOrder::AcqRel });
    assert_eq!(r, Err(SpawnError::IllegalOrder));
    assert_untouched(&m);
}

#[test]
fn read_modify_write_accepts_every_order() {
    for order in ALL {
        assert!(is_order_for(OpClass::ReadModifyWrite, order));
        let mut m = machine_with_cell();
        let r = m.spawn(0, Request::Rmw { op: RmwOp::Add, val: 1, order });
        assert_eq!(r, Ok(0));
    }
}

#[test]
fn class_check_agrees_with_the_single_checks() {
    for order in ALL {
        assert_eq!(is_order_for(OpClass::Load, order), is_load_order(order));
        assert_eq!(is_order_for(OpClass::Store, order), is_store_order(order));
    }
}

#[test]
fn compare_exchange_rejects_release_on_failure() {
    for success in ALL {
        assert!(!is_compare_exchange_order(success, MemoryOrder::Release));
        let mut m = machine_with_cell();
        let r = m.spawn(
            0,
            Request::CompareExchange { current: 7, new: 8, success, failure: MemoryOrder::Release },
        );
        assert_eq!(r, Err(SpawnError::IllegalOrder));
        assert_untouched(&m);
    }
}

#[test]
fn compare_exchange_rejects_acq_rel_on_failure() {
    for success in ALL {
        assert!(!is_compare_exchange_order(success, MemoryOrder::AcqRel));
        let mut m = machine_with_cell();
        let r = m.spawn(
            0,
            Request::CompareExchange { current: 7, new: 8, success, failure: MemoryOrder::AcqRel },
        );
        assert_eq!(r, Err(SpawnError::IllegalOrder));
        assert_untouched(&m);
    }
}

#[test]
fn compare_exchange_accepts_every_other_pair() {
    for success in ALL {
        for failure in [MemoryOrder::Relaxed, MemoryOrder::Acquire, MemoryOrder::SeqCst] {
            assert!(is_compare_exchange_order(success, failure));
            let mut m = machine_with_cell();
            let r = m.spawn(0, Request::CompareExchange { current: 7, new: 8, success, failure });
            assert_eq!(r, Ok(0));
        }
    }
}

#[test]
fn illegal_order_is_reported_before_a_missing_cell() {
    let mut m = Machine::new();
    let r = m.spawn(5, Request::Load { order: MemoryOrder::Release });
    assert_eq!(r, Err(SpawnError::IllegalOrder));
    let r = m.spawn(5, Request::Load { order: MemoryOrder::Acquire });
    assert_eq!(r, Err(SpawnError::NoSuchCell));
}

#[test]
fn request_checks_its_own_order() {
    assert!(Request::Load { order: MemoryOrder::SeqCst }.has_legal_order());
    assert!(!Request::Load { order: MemoryOrder::Release }.has_legal_order());
    assert!(Request::Store { val: 0, order: MemoryOrder::Release }.has_legal_order());
    assert!(!Request::Store { val: 0, order: MemoryOrder::Acquire }.has_legal_order());
    assert!(Request::Rmw { op: RmwOp::Xor, val: 0, order: MemoryOrder::AcqRel }.has_legal_order());
    assert!(!Request::CompareExchange {
        current: 0,
        new: 1,
        success: MemoryOrder::SeqCst,
        failure: MemoryOrder::AcqRel
    }
    .has_legal_order());
}
