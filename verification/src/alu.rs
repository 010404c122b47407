//! Arithmetic semantics shared by the immediate and register-register
//! instruction groups: sign extension, the signed comparison and shift
//! helpers, the M-extension multiply/divide family and the atomic
//! read-modify-write operations.
//!
//! Every base operation wraps at the register width; division follows the
//! RISC-V table: a zero divisor yields all-ones for quotients and the
//! dividend for remainders, and the lone signed-overflow case (`MIN / -1`)
//! yields the dividend and a zero remainder.

use vstd::prelude::*;

use crate::bus::Width;

verus! {

/// Sign-extension of bit 7 of `x` into bits 8..63.
pub open spec fn sext8(x: u64) -> u64 {
    ((((x as u8) as i8) as i64) as u64)
}

/// Sign-extension of bit 15 of `x` into bits 16..63.
pub open spec fn sext16(x: u64) -> u64 {
    ((((x as u16) as i16) as i64) as u64)
}

/// Sign-extension of bit 31 of `x` into bits 32..63.
pub open spec fn sext32(x: u64) -> u64 {
    ((((x as u32) as i32) as i64) as u64)
}

pub fn sext8_exec(x: u64) -> (r: u64)
    ensures
        r == sext8(x),
{
    ((((x as u8) as i8) as i64) as u64)
}

pub fn sext16_exec(x: u64) -> (r: u64)
    ensures
        r == sext16(x),
{
    ((((x as u16) as i16) as i64) as u64)
}

pub fn sext32_exec(x: u64) -> (r: u64)
    ensures
        r == sext32(x),
{
    ((((x as u32) as i32) as i64) as u64)
}

/// A 6-bit mask bounds a 64-bit shift amount; a 5-bit mask bounds a 32-bit
/// one.
pub proof fn lemma_shift_mask(b: u64)
    by (bit_vector)
    ensures
        b & 0x3F < 64,
        b & 0x1F < 32,
{
}

/// Whether `x` is negative when read as a two's complement 64-bit value.
pub open spec fn is_neg64(x: u64) -> bool {
    x >= 0x8000_0000_0000_0000
}

/// Whether `x` is negative when read as a two's complement 32-bit value.
pub open spec fn is_neg32(x: u32) -> bool {
    x >= 0x8000_0000
}

/// Two's complement magnitude of `x` as an unsigned value.
pub open spec fn mag64(x: u64) -> u64 {
    if is_neg64(x) {
        vstd::wrapping::u64_specs::wrapping_sub(0u64, x)
    } else {
        x
    }
}

/// Two's complement magnitude of `x` as an unsigned value.
pub open spec fn mag32(x: u32) -> u32 {
    if is_neg32(x) {
        vstd::wrapping::u32_specs::wrapping_sub(0u32, x)
    } else {
        x
    }
}

/// `SLT`-style signed comparison: 1 if `a < b` as two's complement, else 0.
pub open spec fn slt64(a: u64, b: u64) -> u64 {
    if (a as i64) < (b as i64) {
        1u64
    } else {
        0u64
    }
}

/// `SLTU`-style unsigned comparison: 1 if `a < b`, else 0.
pub open spec fn sltu64(a: u64, b: u64) -> u64 {
    if a < b {
        1u64
    } else {
        0u64
    }
}

/// `DIV`: truncating signed quotient; all-ones on a zero divisor; the
/// dividend on `MIN / -1`.
pub open spec fn sem_div(a: u64, b: u64) -> u64 {
    if b == 0 {
        u64::MAX
    } else if a == 0x8000_0000_0000_0000 && b == u64::MAX {
        a
    } else {
        let q = mag64(a) / mag64(b);
        if is_neg64(a) != is_neg64(b) {
            vstd::wrapping::u64_specs::wrapping_sub(0u64, q)
        } else {
            q
        }
    }
}

/// `DIVU`: unsigned quotient; all-ones on a zero divisor.
pub open spec fn sem_divu(a: u64, b: u64) -> u64 {
    if b == 0 {
        u64::MAX
    } else {
        a / b
    }
}

/// `REM`: signed remainder with the dividend's sign; the dividend on a zero
/// divisor (which also yields 0 on `MIN / -1`).
pub open spec fn sem_rem(a: u64, b: u64) -> u64 {
    if b == 0 {
        a
    } else if a == 0x8000_0000_0000_0000 && b == u64::MAX {
        0
    } else {
        let m = mag64(a) % mag64(b);
        if is_neg64(a) {
            vstd::wrapping::u64_specs::wrapping_sub(0u64, m)
        } else {
            m
        }
    }
}

/// `REMU`: unsigned remainder; the dividend on a zero divisor.
pub open spec fn sem_remu(a: u64, b: u64) -> u64 {
    if b == 0 {
        a
    } else {
        a % b
    }
}

/// Truncating signed 32-bit quotient, as an unsigned bit pattern.
pub open spec fn div32(x: u32, d: u32) -> u32 {
    let q = mag32(x) / mag32(d);
    if is_neg32(x) != is_neg32(d) {
        vstd::wrapping::u32_specs::wrapping_sub(0u32, q)
    } else {
        q
    }
}

/// Signed 32-bit remainder with the dividend's sign, as an unsigned bit
/// pattern.
pub open spec fn rem32(x: u32, d: u32) -> u32 {
    let m = mag32(x) % mag32(d);
    if is_neg32(x) {
        vstd::wrapping::u32_specs::wrapping_sub(0u32, m)
    } else {
        m
    }
}

/// `DIVW`: 32-bit signed quotient of the low words, sign-extended.
pub open spec fn sem_divw(a: u64, b: u64) -> u64 {
    let x = a as u32;
    let d = b as u32;
    if d == 0 {
        u64::MAX
    } else if x == 0x8000_0000 && d == u32::MAX {
        sext32(x as u64)
    } else {
        sext32(div32(x, d) as u64)
    }
}

/// `DIVUW`: 32-bit unsigned quotient of the low words, sign-extended.
pub open spec fn sem_divuw(a: u64, b: u64) -> u64 {
    let x = a as u32;
    let d = b as u32;
    if d == 0 {
        u64::MAX
    } else {
        sext32((x / d) as u64)
    }
}

/// `REMW`: 32-bit signed remainder of the low words, sign-extended; the
/// sign-extended dividend on a zero divisor.
pub open spec fn sem_remw(a: u64, b: u64) -> u64 {
    let x = a as u32;
    let d = b as u32;
    if d == 0 {
        sext32(x as u64)
    } else if x == 0x8000_0000 && d == u32::MAX {
        0
    } else {
        sext32(rem32(x, d) as u64)
    }
}

/// `REMUW`: 32-bit unsigned remainder of the low words, sign-extended; the
/// sign-extended dividend on a zero divisor.
pub open spec fn sem_remuw(a: u64, b: u64) -> u64 {
    let x = a as u32;
    let d = b as u32;
    if d == 0 {
        sext32(x as u64)
    } else {
        sext32((x % d) as u64)
    }
}

/// `MULH`: bits 127..64 of the signed product.
pub open spec fn sem_mulh(a: u64, b: u64) -> u64 {
    ((((((a as i64) as int) * ((b as i64) as int)) as i128) >> 64) as u64)
}

/// `MULHSU`: bits 127..64 of the signed-by-unsigned product.
pub open spec fn sem_mulhsu(a: u64, b: u64) -> u64 {
    ((((((a as i64) as int) * (b as int)) as i128) >> 64) as u64)
}

/// `MULHU`: bits 127..64 of the unsigned product.
pub open spec fn sem_mulhu(a: u64, b: u64) -> u64 {
    (((((a as int) * (b as int)) as u128) >> 64) as u64)
}

pub fn div_exec(a: u64, b: u64) -> (r: u64)
    ensures
        r == sem_div(a, b),
{
    if b == 0 {
        u64::MAX
    } else if a == 0x8000_0000_0000_0000 && b == u64::MAX {
        a
    } else {
        let ma = if a >= 0x8000_0000_0000_0000 {
            0u64.wrapping_sub(a)
        } else {
            a
        };
        let mb = if b >= 0x8000_0000_0000_0000 {
            0u64.wrapping_sub(b)
        } else {
            b
        };
        let q = ma / mb;
        if (a >= 0x8000_0000_0000_0000) != (b >= 0x8000_0000_0000_0000) {
            0u64.wrapping_sub(q)
        } else {
            q
        }
    }
}

pub fn divu_exec(a: u64, b: u64) -> (r: u64)
    ensures
        r == sem_divu(a, b),
{
    if b == 0 {
        u64::MAX
    } else {
        a / b
    }
}

pub fn rem_exec(a: u64, b: u64) -> (r: u64)
    ensures
        r == sem_rem(a, b),
{
    if b == 0 {
        a
    } else if a == 0x8000_0000_0000_0000 && b == u64::MAX {
        0
    } else {
        let ma = if a >= 0x8000_0000_0000_0000 {
            0u64.wrapping_sub(a)
        } else {
            a
        };
        let mb = if b >= 0x8000_0000_0000_0000 {
            0u64.wrapping_sub(b)
        } else {
            b
        };
        let m = ma % mb;
        if a >= 0x8000_0000_0000_0000 {
            0u64.wrapping_sub(m)
        } else {
            m
        }
    }
}

pub fn remu_exec(a: u64, b: u64) -> (r: u64)
    ensures
        r == sem_remu(a, b),
{
    if b == 0 {
        a
    } else {
        a % b
    }
}

pub fn divw_exec(a: u64, b: u64) -> (r: u64)
    ensures
        r == sem_divw(a, b),
{
    let x = a as u32;
    let d = b as u32;
    if d == 0 {
        u64::MAX
    } else if x == 0x8000_0000 && d == u32::MAX {
        sext32_exec(x as u64)
    } else {
        let mx = if x >= 0x8000_0000 {
            0u32.wrapping_sub(x)
        } else {
            x
        };
        let md = if d >= 0x8000_0000 {
            0u32.wrapping_sub(d)
        } else {
            d
        };
        let q = mx / md;
        let qs = if (x >= 0x8000_0000) != (d >= 0x8000_0000) {
            0u32.wrapping_sub(q)
        } else {
            q
        };
        sext32_exec(qs as u64)
    }
}

pub fn divuw_exec(a: u64, b: u64) -> (r: u64)
    ensures
        r == sem_divuw(a, b),
{
    let x = a as u32;
    let d = b as u32;
    if d == 0 {
        u64::MAX
    } else {
        sext32_exec((x / d) as u64)
    }
}

pub fn remw_exec(a: u64, b: u64) -> (r: u64)
    ensures
        r == sem_remw(a, b),
{
    let x = a as u32;
    let d = b as u32;
    if d == 0 {
        sext32_exec(x as u64)
    } else if x == 0x8000_0000 && d == u32::MAX {
        0
    } else {
        let mx = if x >= 0x8000_0000 {
            0u32.wrapping_sub(x)
        } else {
            x
        };
        let md = if d >= 0x8000_0000 {
            0u32.wrapping_sub(d)
        } else {
            d
        };
        let m = mx % md;
        let ms = if x >= 0x8000_0000 {
            0u32.wrapping_sub(m)
        } else {
            m
        };
        sext32_exec(ms as u64)
    }
}

pub fn remuw_exec(a: u64, b: u64) -> (r: u64)
    ensures
        r == sem_remuw(a, b),
{
    let x = a as u32;
    let d = b as u32;
    if d == 0 {
        sext32_exec(x as u64)
    } else {
        sext32_exec((x % d) as u64)
    }
}

/// A product is bounded in magnitude by the product of the magnitudes'
/// bounds.
proof fn lemma_abs_mul_bound(x: int, y: int, bx: int, by: int)
    by (nonlinear_arith)
    requires
        0 <= bx,
        0 <= by,
        -bx <= x <= bx,
        -by <= y <= by,
    ensures
        -(bx * by) <= x * y <= bx * by,
{
}

/// The product of two signed 64-bit values fits in an `i128`.
proof fn lemma_signed_product_fits(x: int, y: int)
    requires
        -0x8000_0000_0000_0000 <= x <= 0x7FFF_FFFF_FFFF_FFFF,
        -0x8000_0000_0000_0000 <= y <= 0x7FFF_FFFF_FFFF_FFFF,
    ensures
        i128::MIN <= x * y <= i128::MAX,
{
    lemma_abs_mul_bound(x, y, 0x8000_0000_0000_0000, 0x8000_0000_0000_0000);
}

/// The product of a signed 64-bit value and an unsigned 64-bit value fits in
/// an `i128`.
proof fn lemma_mixed_product_fits(x: int, y: int)
    requires
        -0x8000_0000_0000_0000 <= x <= 0x7FFF_FFFF_FFFF_FFFF,
        0 <= y <= 0xFFFF_FFFF_FFFF_FFFF,
    ensures
        i128::MIN <= x * y <= i128::MAX,
{
    lemma_abs_mul_bound(x, y, 0x8000_0000_0000_0000, 0xFFFF_FFFF_FFFF_FFFF);
    assert(-(0x8000_0000_0000_0000 * 0xFFFF_FFFF_FFFF_FFFF) >= i128::MIN);
}

pub fn mulh_exec(a: u64, b: u64) -> (r: u64)
    ensures
        r == sem_mulh(a, b),
{
    let x: i128 = (a as i64) as i128;
    let y: i128 = (b as i64) as i128;
    proof {
        lemma_signed_product_fits(x as int, y as int);
    }
    let p: i128 = x * y;
    (p >> 64u64) as u64
}

pub fn mulhsu_exec(a: u64, b: u64) -> (r: u64)
    ensures
        r == sem_mulhsu(a, b),
{
    let x: i128 = (a as i64) as i128;
    let y: i128 = b as i128;
    proof {
        lemma_mixed_product_fits(x as int, y as int);
    }
    let p: i128 = x * y;
    (p >> 64u64) as u64
}

pub fn mulhu_exec(a: u64, b: u64) -> (r: u64)
    ensures
        r == sem_mulhu(a, b),
{
    let x: u128 = a as u128;
    let y: u128 = b as u128;
    proof {
        vstd::arithmetic::mul::lemma_mul_upper_bound(
            x as int,
            0xFFFF_FFFF_FFFF_FFFF,
            y as int,
            0xFFFF_FFFF_FFFF_FFFF,
        );
    }
    let p: u128 = x * y;
    (p >> 64u64) as u64
}

/// Branch outcome as a pure function of the two source registers and
/// `funct3`; `None` marks an undefined comparison encoding.
pub open spec fn branch_taken(f3: u32, a: u64, b: u64) -> Option<bool> {
    match f3 {
        0u32 => Some(a == b),
        1u32 => Some(a != b),
        4u32 => Some((a as i64) < (b as i64)),
        5u32 => Some((a as i64) >= (b as i64)),
        6u32 => Some(a < b),
        7u32 => Some(a >= b),
        _ => None,
    }
}

pub fn branch_taken_exec(f3: u32, a: u64, b: u64) -> (r: Option<bool>)
    ensures
        r == branch_taken(f3, a, b),
{
    match f3 {
        0u32 => Some(a == b),
        1u32 => Some(a != b),
        4u32 => Some((a as i64) < (b as i64)),
        5u32 => Some((a as i64) >= (b as i64)),
        6u32 => Some(a < b),
        7u32 => Some(a >= b),
        _ => None,
    }
}

/// The atomic read-modify-write function: the new memory value computed from
/// the old one and `x[rs2]` at the operand width. `None` marks an undefined
/// `funct5` encoding.
pub open spec fn amo_result(f5: u32, old_v: u64, src: u64, w: Width) -> Option<u64> {
    match w {
        Width::Word => {
            let o = old_v as u32;
            let s = src as u32;
            match f5 {
                0x00u32 => Some(vstd::wrapping::u32_specs::wrapping_add(o, s) as u64),
                0x01u32 => Some(s as u64),
                0x04u32 => Some((o ^ s) as u64),
                0x08u32 => Some((o | s) as u64),
                0x0Cu32 => Some((o & s) as u64),
                0x10u32 => Some(
                    (if (o as i32) < (s as i32) {
                        o
                    } else {
                        s
                    }) as u64,
                ),
                0x14u32 => Some(
                    (if (o as i32) > (s as i32) {
                        o
                    } else {
                        s
                    }) as u64,
                ),
                0x18u32 => Some(
                    (if o < s {
                        o
                    } else {
                        s
                    }) as u64,
                ),
                0x1Cu32 => Some(
                    (if o > s {
                        o
                    } else {
                        s
                    }) as u64,
                ),
                _ => None,
            }
        },
        _ => {
            match f5 {
                0x00u32 => Some(vstd::wrapping::u64_specs::wrapping_add(old_v, src)),
                0x01u32 => Some(src),
                0x04u32 => Some(old_v ^ src),
                0x08u32 => Some(old_v | src),
                0x0Cu32 => Some(old_v & src),
                0x10u32 => Some(
                    if (old_v as i64) < (src as i64) {
                        old_v
                    } else {
                        src
                    },
                ),
                0x14u32 => Some(
                    if (old_v as i64) > (src as i64) {
                        old_v
                    } else {
                        src
                    },
                ),
                0x18u32 => Some(
                    if old_v < src {
                        old_v
                    } else {
                        src
                    },
                ),
                0x1Cu32 => Some(
                    if old_v > src {
                        old_v
                    } else {
                        src
                    },
                ),
                _ => None,
            }
        },
    }
}

pub fn amo_result_exec(f5: u32, old_v: u64, src: u64, w: Width) -> (r: Option<u64>)
    ensures
        r == amo_result(f5, old_v, src, w),
{
    match w {
        Width::Word => {
            let o = old_v as u32;
            let s = src as u32;
            match f5 {
                0x00u32 => Some(o.wrapping_add(s) as u64),
                0x01u32 => Some(s as u64),
                0x04u32 => Some((o ^ s) as u64),
                0x08u32 => Some((o | s) as u64),
                0x0Cu32 => Some((o & s) as u64),
                0x10u32 => Some(
                    (if (o as i32) < (s as i32) {
                        o
                    } else {
                        s
                    }) as u64,
                ),
                0x14u32 => Some(
                    (if (o as i32) > (s as i32) {
                        o
                    } else {
                        s
                    }) as u64,
                ),
                0x18u32 => Some(
                    (if o < s {
                        o
                    } else {
                        s
                    }) as u64,
                ),
                0x1Cu32 => Some(
                    (if o > s {
                        o
                    } else {
                        s
                    }) as u64,
                ),
                _ => None,
            }
        },
        _ => {
            match f5 {
                0x00u32 => Some(old_v.wrapping_add(src)),
                0x01u32 => Some(src),
                0x04u32 => Some(old_v ^ src),
                0x08u32 => Some(old_v | src),
                0x0Cu32 => Some(old_v & src),
                0x10u32 => Some(
                    if (old_v as i64) < (src as i64) {
                        old_v
                    } else {
                        src
                    },
                ),
                0x14u32 => Some(
                    if (old_v as i64) > (src as i64) {
                        old_v
                    } else {
                        src
                    },
                ),
                0x18u32 => Some(
                    if old_v < src {
                        old_v
                    } else {
                        src
                    },
                ),
                0x1Cu32 => Some(
                    if old_v > src {
                        old_v
                    } else {
                        src
                    },
                ),
                _ => None,
            }
        },
    }
}

} // verus!
