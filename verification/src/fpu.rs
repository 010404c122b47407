//! Bit-level semantics of the single-precision floating-point instructions
//! that are pure functions of the operand encodings: sign injection, the
//! register moves, classification, the comparisons and min/max selection.
//! Values are IEEE-754 binary32 bit patterns held in 32-bit integers; no
//! host floating-point arithmetic is involved.

use vstd::prelude::*;

verus! {

/// Sign bit of a binary32 encoding.
pub const F32_SIGN: u32 = 0x8000_0000;

/// Exponent field of a binary32 encoding.
pub const F32_EXP: u32 = 0x7F80_0000;

/// Significand field of a binary32 encoding.
pub const F32_MANT: u32 = 0x007F_FFFF;

/// The canonical quiet NaN.
pub const F32_QNAN: u32 = 0x7FC0_0000;

/// Quiet bit: the top bit of the significand field.
pub const F32_QUIET: u32 = 0x0040_0000;

/// Whether `x` encodes a NaN: exponent all ones, significand nonzero.
pub open spec fn is_nan32(x: u32) -> bool {
    x & F32_EXP == F32_EXP && x & F32_MANT != 0
}

/// `FSGNJ.S`: the magnitude of `a` with the sign of `b`.
pub open spec fn sem_fsgnj(a: u32, b: u32) -> u32 {
    (a & 0x7FFF_FFFF) | (b & F32_SIGN)
}

/// `FSGNJN.S`: the magnitude of `a` with the inverted sign of `b`.
pub open spec fn sem_fsgnjn(a: u32, b: u32) -> u32 {
    (a & 0x7FFF_FFFF) | ((!b) & F32_SIGN)
}

/// `FSGNJX.S`: the sign of `a` XORed with the sign of `b`.
pub open spec fn sem_fsgnjx(a: u32, b: u32) -> u32 {
    a ^ (b & F32_SIGN)
}

/// The numeric order of non-NaN encodings as a signed key: sign-magnitude
/// mapped to two's complement, with both zeroes at key 0.
pub open spec fn order_key32(x: u32) -> int {
    if x & F32_SIGN != 0 {
        -((x & 0x7FFF_FFFF) as int)
    } else {
        (x & 0x7FFF_FFFF) as int
    }
}

/// `FEQ.S`: 1 if the operands are numerically equal, 0 otherwise and on any
/// NaN.
pub open spec fn sem_feq(a: u32, b: u32) -> u64 {
    if is_nan32(a) || is_nan32(b) {
        0u64
    } else if order_key32(a) == order_key32(b) {
        1u64
    } else {
        0u64
    }
}

/// `FLT.S`: 1 if `a` is numerically less than `b`, 0 otherwise and on any
/// NaN.
pub open spec fn sem_flt(a: u32, b: u32) -> u64 {
    if is_nan32(a) || is_nan32(b) {
        0u64
    } else if order_key32(a) < order_key32(b) {
        1u64
    } else {
        0u64
    }
}

/// `FLE.S`: 1 if `a` is numerically at most `b`, 0 otherwise and on any NaN.
pub open spec fn sem_fle(a: u32, b: u32) -> u64 {
    if is_nan32(a) || is_nan32(b) {
        0u64
    } else if order_key32(a) <= order_key32(b) {
        1u64
    } else {
        0u64
    }
}

/// `FMIN.S`: the numerically smaller operand; a NaN operand yields the other
/// one, two NaNs yield the canonical quiet NaN; `-0` is smaller than `+0`.
pub open spec fn sem_fmin(a: u32, b: u32) -> u32 {
    if is_nan32(a) && is_nan32(b) {
        F32_QNAN
    } else if is_nan32(a) {
        b
    } else if is_nan32(b) {
        a
    } else if order_key32(a) < order_key32(b) {
        a
    } else if order_key32(b) < order_key32(a) {
        b
    } else {
        a | b
    }
}

/// `FMAX.S`: the numerically larger operand; a NaN operand yields the other
/// one, two NaNs yield the canonical quiet NaN; `+0` is larger than `-0`.
pub open spec fn sem_fmax(a: u32, b: u32) -> u32 {
    if is_nan32(a) && is_nan32(b) {
        F32_QNAN
    } else if is_nan32(a) {
        b
    } else if is_nan32(b) {
        a
    } else if order_key32(a) > order_key32(b) {
        a
    } else if order_key32(b) > order_key32(a) {
        b
    } else {
        a & b
    }
}

/// `FCLASS.S`: the one-hot classification word of the operand.
pub open spec fn sem_fclass(x: u32) -> u64 {
    let neg = x & F32_SIGN != 0;
    let exp = x & F32_EXP;
    let mant = x & F32_MANT;
    if exp == F32_EXP {
        if mant == 0 {
            if neg {
                0x001u64  // negative infinity
            } else {
                0x080u64  // positive infinity
            }
        } else if x & F32_QUIET == 0 {
            0x100u64  // signaling NaN
        } else {
            0x200u64  // quiet NaN
        }
    } else if exp == 0 {
        if mant == 0 {
            if neg {
                0x008u64  // negative zero
            } else {
                0x010u64  // positive zero
            }
        } else if neg {
            0x004u64  // negative subnormal
        } else {
            0x020u64  // positive subnormal
        }
    } else if neg {
        0x002u64  // negative normal
    } else {
        0x040u64  // positive normal
    }
}

pub fn fsgnj_exec(a: u32, b: u32) -> (r: u32)
    ensures
        r == sem_fsgnj(a, b),
{
    (a & 0x7FFF_FFFF) | (b & F32_SIGN)
}

pub fn fsgnjn_exec(a: u32, b: u32) -> (r: u32)
    ensures
        r == sem_fsgnjn(a, b),
{
    (a & 0x7FFF_FFFF) | ((!b) & F32_SIGN)
}

pub fn fsgnjx_exec(a: u32, b: u32) -> (r: u32)
    ensures
        r == sem_fsgnjx(a, b),
{
    a ^ (b & F32_SIGN)
}

fn is_nan32_exec(x: u32) -> (r: bool)
    ensures
        r == is_nan32(x),
{
    x & F32_EXP == F32_EXP && x & F32_MANT != 0
}

fn order_key32_exec(x: u32) -> (r: i64)
    ensures
        r as int == order_key32(x),
{
    proof {
        assert(x & 0x7FFF_FFFF <= 0x7FFF_FFFF) by (bit_vector);
    }
    if x & F32_SIGN != 0 {
        -((x & 0x7FFF_FFFF) as i64)
    } else {
        (x & 0x7FFF_FFFF) as i64
    }
}

pub fn feq_exec(a: u32, b: u32) -> (r: u64)
    ensures
        r == sem_feq(a, b),
{
    if is_nan32_exec(a) || is_nan32_exec(b) {
        0
    } else if order_key32_exec(a) == order_key32_exec(b) {
        1
    } else {
        0
    }
}

pub fn flt_exec(a: u32, b: u32) -> (r: u64)
    ensures
        r == sem_flt(a, b),
{
    if is_nan32_exec(a) || is_nan32_exec(b) {
        0
    } else if order_key32_exec(a) < order_key32_exec(b) {
        1
    } else {
        0
    }
}

pub fn fle_exec(a: u32, b: u32) -> (r: u64)
    ensures
        r == sem_fle(a, b),
{
    if is_nan32_exec(a) || is_nan32_exec(b) {
        0
    } else if order_key32_exec(a) <= order_key32_exec(b) {
        1
    } else {
        0
    }
}

pub fn fmin_exec(a: u32, b: u32) -> (r: u32)
    ensures
        r == sem_fmin(a, b),
{
    if is_nan32_exec(a) && is_nan32_exec(b) {
        F32_QNAN
    } else if is_nan32_exec(a) {
        b
    } else if is_nan32_exec(b) {
        a
    } else if order_key32_exec(a) < order_key32_exec(b) {
        a
    } else if order_key32_exec(b) < order_key32_exec(a) {
        b
    } else {
        a | b
    }
}

pub fn fmax_exec(a: u32, b: u32) -> (r: u32)
    ensures
        r == sem_fmax(a, b),
{
    if is_nan32_exec(a) && is_nan32_exec(b) {
        F32_QNAN
    } else if is_nan32_exec(a) {
        b
    } else if is_nan32_exec(b) {
        a
    } else if order_key32_exec(a) > order_key32_exec(b) {
        a
    } else if order_key32_exec(b) > order_key32_exec(a) {
        b
    } else {
        a & b
    }
}

pub fn fclass_exec(x: u32) -> (r: u64)
    ensures
        r == sem_fclass(x),
{
    let neg = x & F32_SIGN != 0;
    let exp = x & F32_EXP;
    let mant = x & F32_MANT;
    if exp == F32_EXP {
        if mant == 0 {
            if neg {
                0x001
            } else {
                0x080
            }
        } else if x & F32_QUIET == 0 {
            0x100
        } else {
            0x200
        }
    } else if exp == 0 {
        if mant == 0 {
            if neg {
                0x008
            } else {
                0x010
            }
        } else if neg {
            0x004
        } else {
            0x020
        }
    } else if neg {
        0x002
    } else {
        0x040
    }
}

} // verus!
