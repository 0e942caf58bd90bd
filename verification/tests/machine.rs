use atomic_fallback::chunks::WordSize;
use atomic_fallback::kind::{raw_of_i64, IntKind, MASK_64};
use atomic_fallback::machine::{Machine, SpawnError};
use atomic_fallback::model::{Stage, MAX_RANK};
use atomic_fallback::order::MemoryOrder;
use atomic_fallback::request::{Outcome, Request};
use atomic_fallback::rmw::RmwOp;
use atomic_fallback::seq_lock::LOCKED;

const ADDR: usize = 0x4_0000;

fn load() -> Request {
    Request::Load { order: MemoryOrder::Acquire }
}

fn store(val: u128) -> Request {
    Request::Store { val, order: MemoryOrder::Release }
}

fn add(val: u128) -> Request {
    Request::Rmw { op: RmwOp::Add, val, order: MemoryOrder::AcqRel }
}

fn sub(val: u128) -> Request {
    Request::Rmw { op: RmwOp::Sub, val, order: MemoryOrder::AcqRel }
}

fn exchange(current: u128, new: u128) -> Request {
    Request::CompareExchange {
        current,
        new,
        success: MemoryOrder::SeqCst,
        failure: MemoryOrder::SeqCst,
    }
}

fn machine(kind: IntKind, word: WordSize, val: u128, requests: &[Request]) -> Machine {
    let mut m = Machine::new();
    assert_eq!(m.add_cell(kind, word, ADDR, val), Some(0));
    for (i, r) in requests.iter().enumerate() {
        assert_eq!(m.spawn(0, *r), Ok(i));
    }
    m
}

/// Plays every order in which the threads can move, and hands each final
/// machine to `check`. Returns the number of orders.
fn every_schedule(build: &dyn Fn() -> Machine, check: &dyn Fn(&Machine)) -> usize {
    let mut prefix: Vec<usize> = Vec::new();
    extend(build, check, &mut prefix)
}

fn extend(build: &dyn Fn() -> Machine, check: &dyn Fn(&Machine), prefix: &mut Vec<usize>) -> usize {
    let mut m = build();
    for tid in prefix.iter() {
        m.step(*tid);
    }
    let mut movable = Vec::new();
    let mut unfinished = 0;
    for tid in 0..m.thread_count() {
        if m.outcome(tid).is_none() {
            unfinished += 1;
            if !m.is_blocked(tid) {
                movable.push(tid);
            }
        }
    }
    if unfinished == 0 {
        check(&m);
        return 1;
    }
    assert!(!movable.is_empty(), "threads wait for each other");
    let mut count = 0;
    for tid in movable {
        prefix.push(tid);
        count += extend(build, check, prefix);
        prefix.pop();
    }
    count
}

#[test]
fn a_new_machine_is_empty() {
    let m = Machine::new();
    assert_eq!(m.cell_count(), 0);
    assert_eq!(m.thread_count(), 0);
    for addr in 0..67 {
        assert_eq!(m.lock_state(addr), 0);
    }
}

#[test]
fn a_cell_needs_a_pattern_of_its_type() {
    let mut m = Machine::new();
    assert_eq!(m.add_cell(IntKind::U64, WordSize::W64, ADDR, MASK_64 + 1), None);
    assert_eq!(m.cell_count(), 0);
    assert_eq!(m.add_cell(IntKind::U64, WordSize::W64, ADDR, MASK_64), Some(0));
    assert_eq!(m.add_cell(IntKind::U128, WordSize::W32, ADDR + 16, u128::MAX), Some(1));
    assert_eq!(m.cell_count(), 2);
    assert_eq!(m.peek(0), MASK_64);
    assert_eq!(m.peek(1), u128::MAX);
}

#[test]
fn spawn_reports_a_missing_cell() {
    let mut m = machine(IntKind::U64, WordSize::W64, 0, &[]);
    assert_eq!(m.spawn(1, load()), Err(SpawnError::NoSuchCell));
    assert_eq!(m.spawn(usize::MAX, load()), Err(SpawnError::NoSuchCell));
    assert_eq!(m.thread_count(), 0);
}

#[test]
fn spawn_reports_an_operand_out_of_range() {
    let mut m = machine(IntKind::I64, WordSize::W64, 0, &[]);
    assert_eq!(m.spawn(0, store(MASK_64 + 1)), Err(SpawnError::OutOfRange));
    assert_eq!(m.spawn(0, add(u128::MAX)), Err(SpawnError::OutOfRange));
    assert_eq!(m.spawn(0, exchange(MASK_64 + 1, 0)), Err(SpawnError::OutOfRange));
    assert_eq!(m.spawn(0, exchange(0, MASK_64 + 1)), Err(SpawnError::OutOfRange));
    assert_eq!(m.thread_count(), 0);
    assert_eq!(m.spawn(0, store(MASK_64)), Ok(0));
}

#[test]
fn spawn_reports_a_full_machine() {
    let mut m = Machine::with_limit(2);
    assert_eq!(m.add_cell(IntKind::U64, WordSize::W64, ADDR, 0), Some(0));
    assert_eq!(m.spawn(0, load()), Ok(0));
    assert_eq!(m.spawn(0, load()), Ok(1));
    assert_eq!(m.spawn(0, load()), Err(SpawnError::Full));
    assert_eq!(m.thread_count(), 2);
    let mut m = Machine::with_limit(0);
    assert_eq!(m.add_cell(IntKind::U64, WordSize::W64, ADDR, 0), Some(0));
    assert_eq!(m.spawn(0, load()), Err(SpawnError::Full));
    assert_eq!(Machine::with_limit(usize::MAX).limit, 0x3fff_ffff);
    assert_eq!(Machine::new().limit, 0x3fff_ffff);
}

#[test]
fn a_store_alone_goes_through_its_stages() {
    let mut m = machine(IntKind::U128, WordSize::W64, 5, &[store((7 << 64) | 9)]);
    assert_eq!(m.stage(0), Stage::Start);
    m.step(0);
    assert_eq!(m.stage(0), Stage::Acquiring);
    assert_eq!(m.lock_state(ADDR), 0);
    m.step(0);
    assert_eq!(m.stage(0), Stage::Holding { previous: 0 });
    assert_eq!(m.lock_state(ADDR), LOCKED);
    m.step(0);
    assert_eq!(
        m.stage(0),
        Stage::Writing { previous: 0, new: (7 << 64) | 9, next: 0, outcome: Outcome::Stored }
    );
    assert_eq!(m.peek(0), 5);
    m.step(0);
    assert_eq!(m.peek(0), 9);
    m.step(0);
    assert_eq!(m.peek(0), (7 << 64) | 9);
    assert_eq!(m.lock_state(ADDR), LOCKED);
    assert_eq!(m.outcome(0), None);
    m.step(0);
    assert_eq!(m.stage(0), Stage::Done { outcome: Outcome::Stored });
    assert_eq!(m.outcome(0), Some(Outcome::Stored));
    assert_eq!(m.lock_state(ADDR), 2);
    m.step(0);
    assert_eq!(m.stage(0), Stage::Done { outcome: Outcome::Stored });
    assert_eq!(m.lock_state(ADDR), 2);
}

#[test]
fn a_load_alone_never_takes_the_lock() {
    let mut m = machine(IntKind::U64, WordSize::W32, (3 << 32) | 4, &[load()]);
    m.step(0);
    assert_eq!(m.stage(0), Stage::Reading { stamp: 0, next: 0, acc: 0 });
    m.step(0);
    assert_eq!(m.stage(0), Stage::Reading { stamp: 0, next: 1, acc: 4 });
    m.step(0);
    assert_eq!(m.stage(0), Stage::Reading { stamp: 0, next: 2, acc: (3 << 32) | 4 });
    assert_eq!(m.lock_state(ADDR), 0);
    m.step(0);
    assert_eq!(m.outcome(0), Some(Outcome::Loaded((3 << 32) | 4)));
    assert_eq!(m.lock_state(ADDR), 0);
}

#[test]
fn a_load_that_finds_a_writer_waits_for_the_lock() {
    let mut m = machine(IntKind::U64, WordSize::W64, 5, &[store(6), load()]);
    m.step(0);
    m.step(0);
    assert_eq!(m.stage(0), Stage::Holding { previous: 0 });
    m.step(1);
    assert_eq!(m.stage(1), Stage::Acquiring);
    assert!(m.is_blocked(1));
    m.step(1);
    assert_eq!(m.stage(1), Stage::Acquiring);
    assert!(!m.run(1));
    assert!(m.run(0));
    assert!(!m.is_blocked(1));
    m.step(1);
    assert_eq!(m.stage(1), Stage::Holding { previous: 2 });
    m.step(1);
    assert_eq!(m.stage(1), Stage::Aborting { previous: 2, outcome: Outcome::Loaded(6) });
    m.step(1);
    assert_eq!(m.outcome(1), Some(Outcome::Loaded(6)));
    assert_eq!(m.lock_state(ADDR), 2);
}

#[test]
fn a_load_overtaken_by_a_write_reads_again_under_the_lock() {
    let old: u128 = 0x1111_1111_2222_2222;
    let new: u128 = 0x3333_3333_4444_4444;
    let mut m = machine(IntKind::U64, WordSize::W32, old, &[load(), store(new)]);
    m.step(0);
    m.step(0);
    assert_eq!(m.stage(0), Stage::Reading { stamp: 0, next: 1, acc: 0x2222_2222 });
    assert!(m.run(1));
    m.step(0);
    assert_eq!(m.stage(0), Stage::Reading { stamp: 0, next: 2, acc: 0x3333_3333_2222_2222 });
    m.step(0);
    assert_eq!(m.stage(0), Stage::Acquiring);
    assert!(m.run(0));
    assert_eq!(m.outcome(0), Some(Outcome::Loaded(new)));
    assert_eq!(m.lock_state(ADDR), 2);
}

#[test]
fn a_failed_exchange_leaves_the_stamp_and_the_readers_alone() {
    let mut m = machine(IntKind::U64, WordSize::W32, 5, &[load(), exchange(6, 7)]);
    m.step(0);
    m.step(0);
    assert!(m.run(1));
    assert_eq!(m.outcome(1), Some(Outcome::Mismatch(5)));
    assert_eq!(m.lock_state(ADDR), 0);
    m.step(0);
    m.step(0);
    assert_eq!(m.outcome(0), Some(Outcome::Loaded(5)));
}

#[test]
fn no_operation_takes_more_steps_than_its_bound() {
    assert_eq!(MAX_RANK, 9);
    let old: u128 = 1;
    let mut m = machine(IntKind::U128, WordSize::W32, old, &[load(), store(2)]);
    let mut steps = 0;
    for _ in 0..5 {
        m.step(0);
        steps += 1;
    }
    assert!(m.run(1));
    while m.outcome(0).is_none() {
        m.step(0);
        steps += 1;
    }
    assert_eq!(steps, 9);
    assert_eq!(m.outcome(0), Some(Outcome::Loaded(2)));
    let mut m = machine(IntKind::U128, WordSize::W32, old, &[store(2)]);
    let mut steps = 0;
    while m.outcome(0).is_none() {
        m.step(0);
        steps += 1;
    }
    assert_eq!(steps, 8);
}

#[test]
fn no_update_is_lost_in_any_schedule() {
    let build = || machine(IntKind::U64, WordSize::W64, 100, &[add(5), sub(7), add(11)]);
    let count = every_schedule(&build, &|m| {
        assert_eq!(m.peek(0), 109);
        assert_eq!(m.lock_state(ADDR), 6);
    });
    assert!(count > 6);
}

#[test]
fn no_update_is_lost_when_the_sum_wraps() {
    let build = || {
        machine(
            IntKind::I64,
            WordSize::W32,
            raw_of_i64(i64::MAX - 1),
            &[add(raw_of_i64(3)), sub(raw_of_i64(-4))],
        )
    };
    let count = every_schedule(&build, &|m| {
        assert_eq!(m.peek(0), raw_of_i64(i64::MIN + 5));
    });
    assert!(count > 2);
}

#[test]
fn additions_return_the_values_they_found() {
    let build = || machine(IntKind::U64, WordSize::W64, 0, &[add(1), add(2)]);
    every_schedule(&build, &|m| {
        let a = m.outcome(0).unwrap();
        let b = m.outcome(1).unwrap();
        let first_a = a == Outcome::Previous(0) && b == Outcome::Previous(1);
        let first_b = b == Outcome::Previous(0) && a == Outcome::Previous(2);
        assert!(first_a || first_b);
        assert_eq!(m.peek(0), 3);
    });
}

#[test]
fn a_load_that_races_a_store_is_never_torn() {
    let old: u128 = 0x1111_1111_1111_1111_1111_1111_1111_1111;
    let new: u128 = 0x2222_2222_2222_2222_2222_2222_2222_2222;
    for word in [WordSize::W32, WordSize::W64] {
        let build = || machine(IntKind::U128, word, old, &[load(), store(new)]);
        let count = every_schedule(&build, &|m| {
            let seen = m.outcome(0).unwrap();
            assert!(seen == Outcome::Loaded(old) || seen == Outcome::Loaded(new));
            assert_eq!(m.outcome(1), Some(Outcome::Stored));
            assert_eq!(m.peek(0), new);
        });
        assert!(count > 10);
    }
}

#[test]
fn a_load_that_races_two_writes_sees_one_of_three_values() {
    let build = || machine(IntKind::U64, WordSize::W32, 1 << 32, &[load(), store(2 << 32), add(5)]);
    every_schedule(&build, &|m| {
        let seen = match m.outcome(0).unwrap() {
            Outcome::Loaded(v) => v,
            _ => unreachable!(),
        };
        let possible: [u128; 4] = [1 << 32, 2 << 32, (1 << 32) + 5, (2 << 32) + 5];
        assert!(possible.contains(&seen));
        let last = m.peek(0);
        assert!(last == (2 << 32) || last == (2 << 32) + 5);
    });
}

#[test]
fn the_storage_is_mixed_only_while_a_writer_holds_the_lock() {
    let old: u128 = 0x1111_1111_1111_1111;
    let new: u128 = 0x2222_2222_2222_2222;
    let mut m = machine(IntKind::U64, WordSize::W32, old, &[store(new)]);
    for _ in 0..4 {
        m.step(0);
    }
    assert_eq!(m.peek(0), 0x1111_1111_2222_2222);
    assert_eq!(m.lock_state(ADDR), LOCKED);
    assert!(m.run(0));
    assert_eq!(m.peek(0), new);
}

#[test]
fn exchange_after_the_addition_is_visible() {
    let mut m = machine(IntKind::U64, WordSize::W64, 10, &[add(5)]);
    assert!(m.run(0));
    assert_eq!(m.outcome(0), Some(Outcome::Previous(10)));
    assert_eq!(m.spawn(0, exchange(15, 100)), Ok(1));
    assert!(m.run(1));
    assert_eq!(m.outcome(1), Some(Outcome::Exchanged(15)));
    assert_eq!(m.peek(0), 100);
}

#[test]
fn exchange_that_races_the_addition() {
    for (kind, word) in [
        (IntKind::U64, WordSize::W64),
        (IntKind::U64, WordSize::W32),
        (IntKind::U128, WordSize::W32),
    ] {
        let build = || machine(kind, word, 10, &[add(5), exchange(15, 100)]);
        let count = every_schedule(&build, &|m| {
            assert_eq!(m.outcome(0), Some(Outcome::Previous(10)));
            match m.outcome(1).unwrap() {
                Outcome::Exchanged(found) => {
                    assert_eq!(found, 15);
                    assert_eq!(m.peek(0), 100);
                },
                Outcome::Mismatch(found) => {
                    assert_eq!(found, 10);
                    assert_eq!(m.peek(0), 15);
                },
                _ => unreachable!(),
            }
        });
        assert!(count >= 2);
    }
}

#[test]
fn cells_under_different_locks_do_not_block_each_other() {
    let mut m = Machine::new();
    let a = ADDR;
    let b = ADDR + 8;
    assert_ne!(a % 67, b % 67);
    assert_eq!(m.add_cell(IntKind::U64, WordSize::W64, a, 1), Some(0));
    assert_eq!(m.add_cell(IntKind::U64, WordSize::W64, b, 2), Some(1));
    assert_eq!(m.spawn(0, store(10)), Ok(0));
    assert_eq!(m.spawn(1, store(20)), Ok(1));
    assert_eq!(m.spawn(1, load()), Ok(2));
    m.step(0);
    m.step(0);
    m.step(0);
    assert_eq!(m.lock_state(a), LOCKED);
    assert!(!m.is_blocked(1));
    assert!(m.run(1));
    assert!(m.run(2));
    assert_eq!(m.outcome(2), Some(Outcome::Loaded(20)));
    assert_eq!(m.lock_state(a), LOCKED);
    assert_eq!(m.lock_state(b), 2);
    assert!(m.run(0));
    assert_eq!(m.lock_state(a), 2);
    assert_eq!(m.peek(0), 10);
    assert_eq!(m.peek(1), 20);
}

#[test]
fn cells_under_different_locks_in_every_schedule() {
    let build = || {
        let mut m = Machine::new();
        assert_eq!(m.add_cell(IntKind::U64, WordSize::W64, ADDR, 1), Some(0));
        assert_eq!(m.add_cell(IntKind::U64, WordSize::W64, ADDR + 8, 2), Some(1));
        assert_eq!(m.spawn(0, add(10)), Ok(0));
        assert_eq!(m.spawn(1, add(20)), Ok(1));
        m
    };
    let count = every_schedule(&build, &|m| {
        assert_eq!(m.peek(0), 11);
        assert_eq!(m.peek(1), 22);
        assert_eq!(m.lock_state(ADDR), 2);
        assert_eq!(m.lock_state(ADDR + 8), 2);
    });
    assert_eq!(count, 252);
}

#[test]
fn cells_under_one_lock_wait_for_each_other() {
    let mut m = Machine::new();
    let a = ADDR;
    let b = ADDR + 67 * 8;
    assert_eq!(a % 67, b % 67);
    assert_eq!(m.add_cell(IntKind::U64, WordSize::W64, a, 1), Some(0));
    assert_eq!(m.add_cell(IntKind::U64, WordSize::W64, b, 2), Some(1));
    assert_eq!(m.spawn(0, store(10)), Ok(0));
    assert_eq!(m.spawn(1, store(20)), Ok(1));
    m.step(0);
    m.step(0);
    m.step(1);
    assert!(m.is_blocked(1));
    assert!(!m.run(1));
    assert_eq!(m.peek(1), 2);
    assert!(m.run(0));
    assert!(m.run(1));
    assert_eq!(m.peek(0), 10);
    assert_eq!(m.peek(1), 20);
    assert_eq!(m.lock_state(a), 4);
}

#[test]
fn run_is_the_same_as_stepping_to_the_end() {
    let mut stepped = machine(IntKind::U128, WordSize::W32, 9, &[sub(10)]);
    while stepped.outcome(0).is_none() {
        stepped.step(0);
    }
    let mut ran = machine(IntKind::U128, WordSize::W32, 9, &[sub(10)]);
    assert!(ran.run(0));
    assert_eq!(ran.outcome(0), stepped.outcome(0));
    assert_eq!(ran.outcome(0), Some(Outcome::Previous(9)));
    assert_eq!(ran.peek(0), stepped.peek(0));
    assert_eq!(ran.peek(0), u128::MAX);
    assert_eq!(ran.lock_state(ADDR), stepped.lock_state(ADDR));
}
