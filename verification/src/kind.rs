//! The integer types a cell can hold, and their two's-complement patterns.
//!
//! A value travels as its bit pattern, zero-extended to 128 bits, so that
//! one cell type serves every width and signedness.
use vstd::prelude::*;
use vstd::arithmetic::div_mod::lemma_fundamental_div_mod;
use vstd::arithmetic::div_mod::lemma_fundamental_div_mod_converse_mod;
use vstd::arithmetic::div_mod::lemma_mod_bound;
use vstd::arithmetic::div_mod::lemma_mod_equivalence;

verus! {

/// The integer type of a cell.
#[derive(Clone, Copy, Debug, PartialEq, Eq, Structural)]
pub enum IntKind {
    /// Signed, 64 bits.
    I64,
    /// Unsigned, 64 bits.
    U64,
    /// Signed, 128 bits.
    I128,
    /// Unsigned, 128 bits.
    U128,
}

/// Two to the power 63.
pub const SIGN_64: u128 = 0x8000_0000_0000_0000;

/// Two to the power 64, less one.
pub const MASK_64: u128 = 0xffff_ffff_ffff_ffff;

/// Two to the power 127.
pub const SIGN_128: u128 = 0x8000_0000_0000_0000_0000_0000_0000_0000;

/// Two to the power 128, less one.
pub const MASK_128: u128 = 0xffff_ffff_ffff_ffff_ffff_ffff_ffff_ffff;

impl IntKind {
    /// The width in bits.
    pub open spec fn bits(self) -> nat {
        match self {
            IntKind::I64 | IntKind::U64 => 64,
            IntKind::I128 | IntKind::U128 => 128,
        }
    }

    /// Whether the type has negative values.
    pub open spec fn signed(self) -> bool {
        self == IntKind::I64 || self == IntKind::I128
    }

    /// The number of bit patterns: two to the power of the width.
    pub open spec fn modulus(self) -> int {
        self.mask() + 1
    }

    /// The pattern with every bit of the width set.
    pub open spec fn mask(self) -> u128 {
        if self.bits() == 64 {
            MASK_64
        } else {
            MASK_128
        }
    }

    /// Whether `raw` is a pattern of this type: no bit beyond the width.
    pub open spec fn holds(self, raw: u128) -> bool {
        raw <= self.mask()
    }

    /// The integer that the pattern `raw` stands for.
    pub open spec fn value(self, raw: u128) -> int {
        if self.signed() && 2 * raw >= self.modulus() {
            raw - self.modulus()
        } else {
            raw as int
        }
    }

    /// The least integer of the type.
    pub open spec fn min_value(self) -> int {
        if self.signed() {
            -(self.modulus() / 2)
        } else {
            0
        }
    }

    /// The greatest integer of the type.
    pub open spec fn max_value(self) -> int {
        if self.signed() {
            self.modulus() / 2 - 1
        } else {
            self.modulus() - 1
        }
    }

    /// The pattern of the integer `v`, taken modulo two to the power of the
    /// width: what wrapping arithmetic stores.
    pub open spec fn encode(self, v: int) -> u128 {
        (v % self.modulus()) as u128
    }

    /// The width in bits.
    pub fn width(self) -> (w: u32)
        ensures
            w == self.bits(),
    {
        match self {
            IntKind::I64 | IntKind::U64 => 64,
            IntKind::I128 | IntKind::U128 => 128,
        }
    }

    /// Whether the type has negative values.
    pub fn is_signed(self) -> (s: bool)
        ensures
            s == self.signed(),
    {
        match self {
            IntKind::I64 | IntKind::I128 => true,
            IntKind::U64 | IntKind::U128 => false,
        }
    }

    /// The pattern with every bit of the width set.
    pub fn all_ones(self) -> (m: u128)
        ensures
            m == self.mask(),
            m == self.modulus() - 1,
    {
        match self {
            IntKind::I64 | IntKind::U64 => MASK_64,
            IntKind::I128 | IntKind::U128 => MASK_128,
        }
    }

    /// Tells whether `raw` is a pattern of this type.
    pub fn accepts(self, raw: u128) -> (ok: bool)
        ensures
            ok == self.holds(raw),
    {
        raw <= self.all_ones()
    }

    /// Whether the pattern `raw` stands for a negative integer.
    pub fn is_negative(self, raw: u128) -> (neg: bool)
        requires
            self.holds(raw),
        ensures
            neg == (self.value(raw) < 0),
    {
        match self {
            IntKind::I64 => raw >= SIGN_64,
            IntKind::I128 => raw >= SIGN_128,
            IntKind::U64 | IntKind::U128 => false,
        }
    }

    /// Whether the integer of `a` is less than or equal to that of `b`, in
    /// the type's own order.
    pub fn le(self, a: u128, b: u128) -> (r: bool)
        requires
            self.holds(a),
            self.holds(b),
        ensures
            r == (self.value(a) <= self.value(b)),
    {
        let a_neg = self.is_negative(a);
        let b_neg = self.is_negative(b);
        if a_neg != b_neg {
            a_neg
        } else {
            a <= b
        }
    }
}

/// A pattern of the type stands for an integer of the type, and is the
/// pattern of that integer.
pub proof fn lemma_value_in_range(kind: IntKind, raw: u128)
    requires
        kind.holds(raw),
    ensures
        kind.min_value() <= kind.value(raw) <= kind.max_value(),
        kind.encode(kind.value(raw)) == raw,
{
    let m = kind.modulus();
    let q: int = if kind.value(raw) < 0 {
        -1
    } else {
        0
    };
    assert(kind.value(raw) == q * m + raw) by (nonlinear_arith)
        requires
            q == -1 || q == 0,
            kind.value(raw) == (if q == -1 {
                raw - m
            } else {
                raw as int
            }),
    ;
    lemma_fundamental_div_mod_converse_mod(kind.value(raw), m, q, raw as int);
}

/// Whatever the integer, its pattern is one of the type, and stands for an
/// integer that differs from it by a multiple of the modulus.
pub proof fn lemma_encode_wraps(kind: IntKind, v: int)
    ensures
        kind.holds(kind.encode(v)),
        (kind.value(kind.encode(v)) - v) % kind.modulus() == 0,
{
    let m = kind.modulus();
    lemma_mod_bound(v, m);
    lemma_fundamental_div_mod(v, m);
    let e = kind.encode(v);
    assert(e == v % m);
    let q: int = if kind.value(e) < 0 {
        -(v / m) - 1
    } else {
        -(v / m)
    };
    assert(kind.value(e) - v == q * m + 0) by (nonlinear_arith)
        requires
            v == m * (v / m) + (v % m),
            kind.value(e) == (v % m) + (q + (v / m)) * m,
    ;
    lemma_fundamental_div_mod_converse_mod(kind.value(e) - v, m, q, 0);
}

/// Two integers that differ by a multiple of the modulus have one pattern.
pub proof fn lemma_encode_congruent(kind: IntKind, a: int, b: int)
    requires
        (a - b) % kind.modulus() == 0,
    ensures
        kind.encode(a) == kind.encode(b),
{
    lemma_mod_equivalence(a, b, kind.modulus());
}

/// Wrapping in between changes nothing: the pattern of a wrapped sum plus
/// `d` is the pattern of the sum plus `d`.
pub proof fn lemma_encode_absorbs(kind: IntKind, x: int, d: int)
    ensures
        kind.encode(kind.value(kind.encode(x)) + d) == kind.encode(x + d),
{
    lemma_encode_wraps(kind, x);
    lemma_encode_congruent(kind, kind.value(kind.encode(x)) + d, x + d);
}

/// The pattern of a signed 64-bit integer.
pub fn raw_of_i64(v: i64) -> (raw: u128)
    ensures
        IntKind::I64.holds(raw),
        IntKind::I64.value(raw) == v,
{
    if v >= 0 {
        v as u128
    } else {
        (v as i128 + 0x1_0000_0000_0000_0000i128) as u128
    }
}

/// The signed 64-bit integer of a pattern.
pub fn i64_of_raw(raw: u128) -> (v: i64)
    requires
        IntKind::I64.holds(raw),
    ensures
        v == IntKind::I64.value(raw),
{
    if raw >= SIGN_64 {
        (raw as i128 - 0x1_0000_0000_0000_0000i128) as i64
    } else {
        raw as i64
    }
}

/// The pattern of an unsigned 64-bit integer.
pub fn raw_of_u64(v: u64) -> (raw: u128)
    ensures
        IntKind::U64.holds(raw),
        IntKind::U64.value(raw) == v,
{
    v as u128
}

/// The unsigned 64-bit integer of a pattern.
pub fn u64_of_raw(raw: u128) -> (v: u64)
    requires
        IntKind::U64.holds(raw),
    ensures
        v == IntKind::U64.value(raw),
{
    raw as u64
}

/// The pattern of a signed 128-bit integer.
pub fn raw_of_i128(v: i128) -> (raw: u128)
    ensures
        IntKind::I128.holds(raw),
        IntKind::I128.value(raw) == v,
{
    if v >= 0 {
        v as u128
    } else {
        ((v + i128::MAX + 1) as u128) + SIGN_128
    }
}

/// The signed 128-bit integer of a pattern.
pub fn i128_of_raw(raw: u128) -> (v: i128)
    requires
        IntKind::I128.holds(raw),
    ensures
        v == IntKind::I128.value(raw),
{
    if raw >= SIGN_128 {
        ((raw - SIGN_128) as i128) - i128::MAX - 1
    } else {
        raw as i128
    }
}

/// The pattern of an unsigned 128-bit integer is the integer itself.
pub fn raw_of_u128(v: u128) -> (raw: u128)
    ensures
        IntKind::U128.holds(raw),
        IntKind::U128.value(raw) == v,
{
    v
}

} // verus!
