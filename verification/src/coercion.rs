//! The arithmetic type-coercion table and fixed-width wrapping.
//!
//! For two integer operand types the result type doubles the wider
//! operand's byte width, capped at eight bytes; addition keeps the result
//! unsigned only when both operands are unsigned, subtraction always
//! yields a signed result. Results narrower than eight bytes are exact
//! (`lemma_promoted_add_exact` / `lemma_promoted_minus_exact`); eight-byte
//! results wrap modulo 2^64.

use vstd::prelude::*;

use crate::type_id::TypeID;

verus! {

/// The integer type of a given byte width and signedness.
pub open spec fn spec_integer_of(width: int, signed: bool) -> TypeID {
    if signed {
        if width == 1 {
            TypeID::Int8
        } else if width == 2 {
            TypeID::Int16
        } else if width == 4 {
            TypeID::Int32
        } else {
            TypeID::Int64
        }
    } else {
        if width == 1 {
            TypeID::UInt8
        } else if width == 2 {
            TypeID::UInt16
        } else if width == 4 {
            TypeID::UInt32
        } else {
            TypeID::UInt64
        }
    }
}

pub fn integer_of(width: usize, signed: bool) -> (r: TypeID)
    ensures
        r == spec_integer_of(width as int, signed),
{
    if signed {
        if width == 1 {
            TypeID::Int8
        } else if width == 2 {
            TypeID::Int16
        } else if width == 4 {
            TypeID::Int32
        } else {
            TypeID::Int64
        }
    } else {
        if width == 1 {
            TypeID::UInt8
        } else if width == 2 {
            TypeID::UInt16
        } else if width == 4 {
            TypeID::UInt32
        } else {
            TypeID::UInt64
        }
    }
}

/// Twice the wider operand's width, capped at eight bytes.
pub open spec fn spec_promoted_width(l: TypeID, r: TypeID) -> int {
    let wl = l.spec_fixed_byte_width();
    let wr = r.spec_fixed_byte_width();
    let w = if wl >= wr {
        wl
    } else {
        wr
    };
    if 2 * w >= 8 {
        8
    } else {
        2 * w
    }
}

/// The result type of integer addition: promoted width, unsigned only
/// when both operands are unsigned.
pub open spec fn spec_add_result(l: TypeID, r: TypeID) -> TypeID {
    spec_integer_of(
        spec_promoted_width(l, r),
        l.spec_is_signed_integer() || r.spec_is_signed_integer(),
    )
}

/// The result type of integer subtraction: promoted width, always signed.
pub open spec fn spec_minus_result(l: TypeID, r: TypeID) -> TypeID {
    spec_integer_of(spec_promoted_width(l, r), true)
}

pub fn add_result(l: TypeID, r: TypeID) -> (t: TypeID)
    requires
        l.spec_is_integer(),
        r.spec_is_integer(),
    ensures
        t == spec_add_result(l, r),
{
    let wl = l.fixed_byte_width();
    let wr = r.fixed_byte_width();
    let w = if wl >= wr {
        wl
    } else {
        wr
    };
    let pw = if 2 * w >= 8 {
        8
    } else {
        2 * w
    };
    integer_of(pw, l.is_signed_integer() || r.is_signed_integer())
}

pub fn minus_result(l: TypeID, r: TypeID) -> (t: TypeID)
    requires
        l.spec_is_integer(),
        r.spec_is_integer(),
    ensures
        t == spec_minus_result(l, r),
{
    let wl = l.fixed_byte_width();
    let wr = r.fixed_byte_width();
    let w = if wl >= wr {
        wl
    } else {
        wr
    };
    let pw = if 2 * w >= 8 {
        8
    } else {
        2 * w
    };
    integer_of(pw, true)
}

/// The modulus of a fixed-width integer type: 2^(8·width).
pub open spec fn spec_modulus_of(ty: TypeID) -> int {
    let w = ty.spec_fixed_byte_width();
    if w == 1 {
        0x100
    } else if w == 2 {
        0x1_0000
    } else if w == 4 {
        0x1_0000_0000
    } else {
        0x1_0000_0000_0000_0000
    }
}

/// A value reduced into the range of a fixed-width integer type, with
/// two's-complement wrap-around.
pub open spec fn wrap_to(ty: TypeID, v: int) -> int {
    let m = spec_modulus_of(ty);
    if ty.int_min() == 0 {
        v % m
    } else {
        ((v + m / 2) % m) - m / 2
    }
}

/// Whether a type's physical cells are unsigned.
pub fn physically_unsigned(ty: TypeID) -> (r: bool)
    requires
        ty.spec_is_integer_backed(),
    ensures
        r == (ty.int_min() == 0),
{
    matches!(
        ty,
        TypeID::UInt8 | TypeID::UInt16 | TypeID::UInt32 | TypeID::UInt64 | TypeID::Date16
            | TypeID::DateTime32
    )
}

/// The Euclidean remainder, from Rust's truncating remainder.
pub(crate) fn euclid_mod(v: i128, m: i128) -> (r: i128)
    requires
        0 < m <= 0x1_0000_0000_0000_0000,
        -0x1_0000_0000_0000_0000_0000_0000 <= v <= 0x1_0000_0000_0000_0000_0000_0000,
    ensures
        r as int == (v as int) % (m as int),
{
    let t = 0x1_0000_0000_0000_0000_0000_0000i128 / m;
    let q = t + 1;
    proof {
        let c = 0x1_0000_0000_0000_0000_0000_0000int;
        vstd::arithmetic::div_mod::lemma_fundamental_div_mod(c, m as int);
        vstd::arithmetic::div_mod::lemma_mod_bound(c, m as int);
        assert(m * q == m * t + m) by (nonlinear_arith)
            requires
                q == t + 1,
        ;
        assert(c - m < m * t <= c);
    }
    let shifted = v + m * q;
    let x = shifted % m;
    proof {
        vstd::arithmetic::div_mod::lemma_mod_multiples_vanish(q as int, v as int, m as int);
    }
    x
}

/// Reduces a cell value into the range of an integer-backed type,
/// matching `wrap_to`.
pub fn wrap_cell(ty: TypeID, v: i128) -> (r: i128)
    requires
        ty.spec_is_integer_backed(),
        -0x1_0000_0000_0000_0000_0000 <= v <= 0x1_0000_0000_0000_0000_0000,
    ensures
        r as int == wrap_to(ty, v as int),
        ty.in_range(r as int),
{
    let w = ty.fixed_byte_width();
    let m: i128 = if w == 1 {
        0x100
    } else if w == 2 {
        0x1_0000
    } else if w == 4 {
        0x1_0000_0000
    } else {
        0x1_0000_0000_0000_0000
    };
    if physically_unsigned(ty) {
        euclid_mod(v, m)
    } else {
        euclid_mod(v + m / 2, m) - m / 2
    }
}

/// Addition into a promoted result type narrower than eight bytes never
/// wraps: the exact sum is representable.
pub proof fn lemma_promoted_add_exact(l: TypeID, r: TypeID, x: int, y: int)
    requires
        l.spec_is_integer(),
        r.spec_is_integer(),
        l.in_range(x),
        r.in_range(y),
        spec_add_result(l, r).spec_fixed_byte_width() < 8,
    ensures
        spec_add_result(l, r).in_range(x + y),
        wrap_to(spec_add_result(l, r), x + y) == x + y,
{
    lemma_wrap_identity(spec_add_result(l, r), x + y);
}

/// Subtraction into a promoted result type narrower than eight bytes
/// never wraps: the exact difference is representable.
pub proof fn lemma_promoted_minus_exact(l: TypeID, r: TypeID, x: int, y: int)
    requires
        l.spec_is_integer(),
        r.spec_is_integer(),
        l.in_range(x),
        r.in_range(y),
        spec_minus_result(l, r).spec_fixed_byte_width() < 8,
    ensures
        spec_minus_result(l, r).in_range(x - y),
        wrap_to(spec_minus_result(l, r), x - y) == x - y,
{
    lemma_wrap_identity(spec_minus_result(l, r), x - y);
}

/// Wrapping is the identity on values already in range.
pub proof fn lemma_wrap_identity(ty: TypeID, v: int)
    requires
        ty.spec_is_integer_backed(),
        ty.in_range(v),
    ensures
        wrap_to(ty, v) == v,
{
    let m = spec_modulus_of(ty);
    if ty.int_min() == 0 {
        assert(0 <= v < m);
        assert(v % m == v) by {
            vstd::arithmetic::div_mod::lemma_small_mod(v as nat, m as nat);
        }
    } else {
        let h = m / 2;
        assert(0 <= v + h < m);
        assert((v + h) % m == v + h) by {
            vstd::arithmetic::div_mod::lemma_small_mod((v + h) as nat, m as nat);
        }
    }
}

} // verus!
