//! The operations of a cell, and what each does to the value it finds.
use vstd::prelude::*;
use crate::kind::IntKind;
use crate::order::MemoryOrder;
use crate::order::compare_exchange_order_allowed;
use crate::order::is_compare_exchange_order;
use crate::order::is_load_order;
use crate::order::is_store_order;
use crate::order::load_order_allowed;
use crate::order::store_order_allowed;
use crate::rmw::RmwOp;
use crate::rmw::apply;
use crate::rmw::rmw_result;

verus! {

/// An operation asked of a cell. Values are bit patterns of the cell's type.
#[derive(Clone, Copy, Debug, PartialEq, Eq)]
pub enum Request {
    /// Read the value.
    Load { order: MemoryOrder },
    /// Write `val`.
    Store { val: u128, order: MemoryOrder },
    /// Replace the value `v` by what `op` makes of `v` and `val`; return `v`.
    Rmw { op: RmwOp, val: u128, order: MemoryOrder },
    /// Write `new` if the value is `current`; return the value either way.
    CompareExchange { current: u128, new: u128, success: MemoryOrder, failure: MemoryOrder },
}

/// What an operation returned.
#[derive(Clone, Copy, Debug, PartialEq, Eq)]
pub enum Outcome {
    /// A load read this value.
    Loaded(u128),
    /// A store wrote its value.
    Stored,
    /// A read-modify-write replaced this value.
    Previous(u128),
    /// A compare-exchange found the expected value, this one, and replaced it.
    Exchanged(u128),
    /// A compare-exchange found this value, not the expected one, and wrote
    /// nothing.
    Mismatch(u128),
}

/// What an operation does once it has the cell to itself: the value to
/// write, if any, and what to return.
pub struct Resolution {
    /// The value to write; `None` leaves the cell as it is.
    pub write: Option<u128>,
    /// What the operation returns.
    pub outcome: Outcome,
}

impl Request {
    /// Whether the orders asked are legal for this operation.
    pub open spec fn order_allowed(self) -> bool {
        match self {
            Request::Load { order } => load_order_allowed(order),
            Request::Store { order, .. } => store_order_allowed(order),
            Request::Rmw { .. } => true,
            Request::CompareExchange { success, failure, .. } => compare_exchange_order_allowed(
                success,
                failure,
            ),
        }
    }

    /// Whether the operands are patterns of the type `kind`.
    pub open spec fn operands_hold(self, kind: IntKind) -> bool {
        match self {
            Request::Load { .. } => true,
            Request::Store { val, .. } => kind.holds(val),
            Request::Rmw { val, .. } => kind.holds(val),
            Request::CompareExchange { current, new, .. } => kind.holds(current) && kind.holds(new),
        }
    }

    /// Whether the operation is a load.
    pub open spec fn is_load(self) -> bool {
        self is Load
    }

    /// What the operation does to a cell of type `kind` that holds `cur`.
    pub open spec fn resolution(self, kind: IntKind, cur: u128) -> Resolution {
        match self {
            Request::Load { .. } => Resolution { write: None, outcome: Outcome::Loaded(cur) },
            Request::Store { val, .. } => Resolution { write: Some(val), outcome: Outcome::Stored },
            Request::Rmw { op, val, .. } => Resolution {
                write: Some(rmw_result(kind, op, cur, val)),
                outcome: Outcome::Previous(cur),
            },
            Request::CompareExchange { current, new, .. } => if cur == current {
                Resolution { write: Some(new), outcome: Outcome::Exchanged(cur) }
            } else {
                Resolution { write: None, outcome: Outcome::Mismatch(cur) }
            },
        }
    }

    /// Tells whether the orders asked are legal for this operation.
    pub fn has_legal_order(&self) -> (ok: bool)
        ensures
            ok == self.order_allowed(),
    {
        match self {
            Request::Load { order } => is_load_order(*order),
            Request::Store { order, .. } => is_store_order(*order),
            Request::Rmw { .. } => true,
            Request::CompareExchange { success, failure, .. } => is_compare_exchange_order(
                *success,
                *failure,
            ),
        }
    }

    /// Tells whether the operands are patterns of the type `kind`.
    pub fn has_operands_of(&self, kind: IntKind) -> (ok: bool)
        ensures
            ok == self.operands_hold(kind),
    {
        match self {
            Request::Load { .. } => true,
            Request::Store { val, .. } => kind.accepts(*val),
            Request::Rmw { val, .. } => kind.accepts(*val),
            Request::CompareExchange { current, new, .. } => kind.accepts(*current) && kind.accepts(
                *new,
            ),
        }
    }

    /// Decides what the operation does to a cell of type `kind` that holds
    /// `cur`. The caller has the cell to itself.
    pub fn resolve(&self, kind: IntKind, cur: u128) -> (r: Resolution)
        requires
            kind.holds(cur),
            self.operands_hold(kind),
        ensures
            r == self.resolution(kind, cur),
            r.write matches Some(new) ==> kind.holds(new),
    {
        match self {
            Request::Load { .. } => Resolution { write: None, outcome: Outcome::Loaded(cur) },
            Request::Store { val, .. } => Resolution { write: Some(*val), outcome: Outcome::Stored },
            Request::Rmw { op, val, .. } => Resolution {
                write: Some(apply(kind, *op, cur, *val)),
                outcome: Outcome::Previous(cur),
            },
            Request::CompareExchange { current, new, .. } => if cur == *current {
                Resolution { write: Some(*new), outcome: Outcome::Exchanged(cur) }
            } else {
                Resolution { write: None, outcome: Outcome::Mismatch(cur) }
            },
        }
    }
}

impl Outcome {
    /// The value that the operation read, if it returns one.
    pub open spec fn observed(self) -> Option<u128> {
        match self {
            Outcome::Loaded(v) => Some(v),
            Outcome::Stored => None,
            Outcome::Previous(v) => Some(v),
            Outcome::Exchanged(v) => Some(v),
            Outcome::Mismatch(v) => Some(v),
        }
    }

    /// The value that the operation read, if it returns one.
    pub fn value(&self) -> (v: Option<u128>)
        ensures
            v == self.observed(),
    {
        match self {
            Outcome::Loaded(v) => Some(*v),
            Outcome::Stored => None,
            Outcome::Previous(v) => Some(*v),
            Outcome::Exchanged(v) => Some(*v),
            Outcome::Mismatch(v) => Some(*v),
        }
    }
}

} // verus!
