//! Memory orders and the operation classes that accept them.
use vstd::prelude::*;

verus! {

/// The constraint a caller asks of an atomic operation.
#[derive(Clone, Copy, Debug, PartialEq, Eq, Structural)]
pub enum MemoryOrder {
    /// Atomicity only.
    Relaxed,
    /// Later accesses stay after this one.
    Acquire,
    /// Earlier accesses stay before this one.
    Release,
    /// Both of the above.
    AcqRel,
    /// One total order over all such operations.
    SeqCst,
}

/// The classes of operation, each with its own set of legal orders.
#[derive(Clone, Copy, Debug, PartialEq, Eq, Structural)]
pub enum OpClass {
    /// A pure read.
    Load,
    /// A pure write.
    Store,
    /// A read followed by a write of a value computed from it.
    ReadModifyWrite,
}

/// A pure read has nothing to release.
pub open spec fn load_order_allowed(order: MemoryOrder) -> bool {
    order != MemoryOrder::Release && order != MemoryOrder::AcqRel
}

/// A pure write has nothing to acquire.
pub open spec fn store_order_allowed(order: MemoryOrder) -> bool {
    order != MemoryOrder::Acquire && order != MemoryOrder::AcqRel
}

/// Which orders an operation of class `class` accepts.
pub open spec fn order_allowed(class: OpClass, order: MemoryOrder) -> bool {
    match class {
        OpClass::Load => load_order_allowed(order),
        OpClass::Store => store_order_allowed(order),
        OpClass::ReadModifyWrite => true,
    }
}

/// A compare-exchange is a read-modify-write when it succeeds and a pure
/// read when it fails, so the failure order must be one a load accepts.
pub open spec fn compare_exchange_order_allowed(success: MemoryOrder, failure: MemoryOrder) -> bool {
    order_allowed(OpClass::ReadModifyWrite, success) && load_order_allowed(failure)
}

/// Tells whether a load may be asked with `order`.
pub fn is_load_order(order: MemoryOrder) -> (ok: bool)
    ensures
        ok == load_order_allowed(order),
{
    match order {
        MemoryOrder::Relaxed | MemoryOrder::Acquire | MemoryOrder::SeqCst => true,
        MemoryOrder::Release | MemoryOrder::AcqRel => false,
    }
}

/// Tells whether a store may be asked with `order`.
pub fn is_store_order(order: MemoryOrder) -> (ok: bool)
    ensures
        ok == store_order_allowed(order),
{
    match order {
        MemoryOrder::Relaxed | MemoryOrder::Release | MemoryOrder::SeqCst => true,
        MemoryOrder::Acquire | MemoryOrder::AcqRel => false,
    }
}

/// Tells whether an operation of class `class` may be asked with `order`.
pub fn is_order_for(class: OpClass, order: MemoryOrder) -> (ok: bool)
    ensures
        ok == order_allowed(class, order),
{
    match class {
        OpClass::Load => is_load_order(order),
        OpClass::Store => is_store_order(order),
        OpClass::ReadModifyWrite => true,
    }
}

/// Tells whether a compare-exchange may be asked with this pair of orders.
pub fn is_compare_exchange_order(success: MemoryOrder, failure: MemoryOrder) -> (ok: bool)
    ensures
        ok == compare_exchange_order_allowed(success, failure),
{
    is_order_for(OpClass::ReadModifyWrite, success) && is_load_order(failure)
}

} // verus!
