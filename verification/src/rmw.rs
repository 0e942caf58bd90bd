//! What each read-modify-write operation stores.
use vstd::prelude::*;
use vstd::arithmetic::div_mod::lemma_fundamental_div_mod_converse_mod;
use crate::kind::IntKind;
use crate::kind::MASK_64;
use crate::kind::MASK_128;

verus! {

/// The read-modify-write operations: each reads the cell's value, stores
/// a value computed from it and from an operand, and returns what it read.
#[derive(Clone, Copy, Debug, PartialEq, Eq, Structural)]
pub enum RmwOp {
    /// Stores the operand.
    Swap,
    /// Adds the operand, wrapping around.
    Add,
    /// Subtracts the operand, wrapping around.
    Sub,
    /// Bitwise and.
    And,
    /// Bitwise and, negated.
    Nand,
    /// Bitwise or.
    Or,
    /// Bitwise exclusive or.
    Xor,
    /// The greater of the two, in the type's own order.
    Max,
    /// The lesser of the two, in the type's own order.
    Min,
}

/// The pattern that `op` stores into a cell of type `kind` that holds
/// `cur`, given the operand `val`.
pub open spec fn rmw_result(kind: IntKind, op: RmwOp, cur: u128, val: u128) -> u128 {
    match op {
        RmwOp::Swap => val,
        RmwOp::Add => kind.encode(kind.value(cur) + kind.value(val)),
        RmwOp::Sub => kind.encode(kind.value(cur) - kind.value(val)),
        RmwOp::And => cur & val,
        RmwOp::Nand => !(cur & val) & kind.mask(),
        RmwOp::Or => cur | val,
        RmwOp::Xor => cur ^ val,
        RmwOp::Max => if kind.value(cur) >= kind.value(val) {
            cur
        } else {
            val
        },
        RmwOp::Min => if kind.value(cur) <= kind.value(val) {
            cur
        } else {
            val
        },
    }
}

/// A pattern of the type that differs from `v` by at most twice the modulus,
/// and by a multiple of it, is the pattern of `v`.
proof fn lemma_encode_unique(kind: IntKind, v: int, r: u128)
    requires
        kind.holds(r),
        v - r == 0 || v - r == kind.modulus() || v - r == -kind.modulus() || v - r == 2
            * kind.modulus() || v - r == -2 * kind.modulus(),
    ensures
        kind.encode(v) == r,
{
    let m = kind.modulus();
    let d = v - r;
    let q: int = if d == 0 {
        0
    } else if d == m {
        1
    } else if d == -m {
        -1
    } else if d == 2 * m {
        2
    } else {
        -2
    };
    assert(v == q * m + r) by (nonlinear_arith)
        requires
            d == v - r,
            (q == 0 && d == 0) || (q == 1 && d == m) || (q == -1 && d == -m) || (q == 2 && d == 2
                * m) || (q == -2 && d == -2 * m),
    ;
    lemma_fundamental_div_mod_converse_mod(v, m, q, r as int);
}

/// The bitwise operations keep a pattern within 64 bits.
proof fn lemma_bitwise_within_64(a: u128, b: u128)
    requires
        a <= MASK_64,
        b <= MASK_64,
    ensures
        a & b <= MASK_64,
        a | b <= MASK_64,
        a ^ b <= MASK_64,
        !(a & b) & MASK_64 <= MASK_64,
        !(a & b) & MASK_128 == !(a & b),
{
    assert(a & b <= 0xffff_ffff_ffff_ffffu128 && a | b <= 0xffff_ffff_ffff_ffffu128 && a ^ b
        <= 0xffff_ffff_ffff_ffffu128) by (bit_vector)
        requires
            a <= 0xffff_ffff_ffff_ffffu128,
            b <= 0xffff_ffff_ffff_ffffu128,
    ;
    lemma_nand_within(a, b);
}

/// Masking keeps a negated pattern within the mask; the full mask changes
/// nothing.
proof fn lemma_nand_within(a: u128, b: u128)
    ensures
        !(a & b) & MASK_64 <= MASK_64,
        !(a & b) & MASK_128 == !(a & b),
{
    assert(!(a & b) & 0xffff_ffff_ffff_ffffu128 <= 0xffff_ffff_ffff_ffffu128) by (bit_vector);
    assert(!(a & b) & 0xffff_ffff_ffff_ffff_ffff_ffff_ffff_ffffu128 == !(a & b)) by (bit_vector);
}

/// The sum of two patterns, wrapped to the width of `kind`.
fn wrapping_sum(kind: IntKind, cur: u128, val: u128) -> (new: u128)
    requires
        kind.holds(cur),
        kind.holds(val),
    ensures
        kind.holds(new),
        new == kind.encode(kind.value(cur) + kind.value(val)),
{
    let new: u128 = match kind {
        IntKind::I64 | IntKind::U64 => {
            let sum: u128 = cur + val;
            if sum > MASK_64 {
                sum - MASK_64 - 1
            } else {
                sum
            }
        },
        IntKind::I128 | IntKind::U128 => cur.wrapping_add(val),
    };
    proof {
        lemma_encode_unique(kind, kind.value(cur) + kind.value(val), new);
    }
    new
}

/// The difference of two patterns, wrapped to the width of `kind`.
fn wrapping_difference(kind: IntKind, cur: u128, val: u128) -> (new: u128)
    requires
        kind.holds(cur),
        kind.holds(val),
    ensures
        kind.holds(new),
        new == kind.encode(kind.value(cur) - kind.value(val)),
{
    let new: u128 = match kind {
        IntKind::I64 | IntKind::U64 => {
            if cur >= val {
                cur - val
            } else {
                cur + (MASK_64 - val) + 1
            }
        },
        IntKind::I128 | IntKind::U128 => cur.wrapping_sub(val),
    };
    proof {
        lemma_encode_unique(kind, kind.value(cur) - kind.value(val), new);
    }
    new
}

/// What an operation stores is a pattern of the cell's type.
pub proof fn lemma_rmw_holds(kind: IntKind, op: RmwOp, cur: u128, val: u128)
    requires
        kind.holds(cur),
        kind.holds(val),
    ensures
        kind.holds(rmw_result(kind, op, cur, val)),
{
    if kind.bits() == 64 {
        lemma_bitwise_within_64(cur, val);
    } else {
        lemma_nand_within(cur, val);
    }
    crate::kind::lemma_encode_wraps(kind, kind.value(cur) + kind.value(val));
    crate::kind::lemma_encode_wraps(kind, kind.value(cur) - kind.value(val));
}

/// Computes the pattern that `op` stores into a cell of type `kind` that
/// holds `cur`, given the operand `val`.
pub fn apply(kind: IntKind, op: RmwOp, cur: u128, val: u128) -> (new: u128)
    requires
        kind.holds(cur),
        kind.holds(val),
    ensures
        new == rmw_result(kind, op, cur, val),
        kind.holds(new),
{
    proof {
        if kind.bits() == 64 {
            lemma_bitwise_within_64(cur, val);
        } else {
            lemma_nand_within(cur, val);
        }
    }
    match op {
        RmwOp::Swap => val,
        RmwOp::Add => wrapping_sum(kind, cur, val),
        RmwOp::Sub => wrapping_difference(kind, cur, val),
        RmwOp::And => cur & val,
        RmwOp::Nand => !(cur & val) & kind.all_ones(),
        RmwOp::Or => cur | val,
        RmwOp::Xor => cur ^ val,
        RmwOp::Max => if kind.le(val, cur) {
            cur
        } else {
            val
        },
        RmwOp::Min => if kind.le(cur, val) {
            cur
        } else {
            val
        },
    }
}

} // verus!
