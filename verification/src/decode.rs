//! Field and immediate extraction from a 32-bit instruction word.
//!
//! The spec functions are the reference: each gives the value of a field as
//! the bit-level formula of the RISC-V instruction formats (I, S, B, U, J),
//! with immediates sign-extended from bit 31 of the word to the full 64-bit
//! register width. The exec functions compute exactly those formulas.

use vstd::prelude::*;

verus! {

/// Primary dispatch field, bits 6..0.
pub open spec fn s_opcode(i: u32) -> u32 {
    i & 0x7F
}

/// Minor dispatch field, bits 14..12.
pub open spec fn s_funct3(i: u32) -> u32 {
    (i >> 12) & 0x7
}

/// Minor dispatch field, bits 31..25.
pub open spec fn s_funct7(i: u32) -> u32 {
    i >> 25
}

/// Destination register index, bits 11..7.
pub open spec fn s_rd(i: u32) -> u32 {
    (i >> 7) & 0x1F
}

/// First source register index, bits 19..15.
pub open spec fn s_rs1(i: u32) -> u32 {
    (i >> 15) & 0x1F
}

/// Second source register index, bits 24..20.
pub open spec fn s_rs2(i: u32) -> u32 {
    (i >> 20) & 0x1F
}

/// CSR address, bits 31..20.
pub open spec fn s_csr(i: u32) -> u32 {
    i >> 20
}

/// I-format immediate: bits 31..20, sign-extended to 64 bits.
pub open spec fn s_imm_i(i: u32) -> u64 {
    (((i as i32) >> 20) as i64) as u64
}

/// S-format immediate: bits 31..25 and 11..7, sign-extended to 64 bits.
pub open spec fn s_imm_s(i: u32) -> u64 {
    (((((i & 0xFE00_0000) as i32) >> 20) as i64) as u64) | (((i >> 7) & 0x1F) as u64)
}

/// B-format immediate: a signed multiple of 2 built from bits 31, 7, 30..25
/// and 11..8, sign-extended to 64 bits.
pub open spec fn s_imm_b(i: u32) -> u64 {
    (((((i & 0x8000_0000) as i32) >> 19) as i64) as u64) | (((i & 0x80) as u64) << 4) | (((i
        >> 20) & 0x7E0) as u64) | (((i >> 7) & 0x1E) as u64)
}

/// U-format immediate: bits 31..12 shifted left by 12, sign-extended to 64 bits.
pub open spec fn s_imm_u(i: u32) -> u64 {
    (((i & 0xFFFF_F000) as i32) as i64) as u64
}

/// J-format immediate: a signed multiple of 2 built from bits 31, 19..12, 20
/// and 30..21, sign-extended to 64 bits.
pub open spec fn s_imm_j(i: u32) -> u64 {
    (((((i & 0x8000_0000) as i32) >> 11) as i64) as u64) | ((i & 0xFF000) as u64) | (((i >> 9)
        & 0x800) as u64) | (((i >> 20) & 0x7FE) as u64)
}

/// Shift amount for the 64-bit shift immediates: bits 25..20.
pub open spec fn s_shamt6(i: u32) -> u32 {
    (i >> 20) & 0x3F
}

/// Shift amount for the word-width shift immediates: bits 24..20.
pub open spec fn s_shamt5(i: u32) -> u32 {
    (i >> 20) & 0x1F
}

pub fn opcode(i: u32) -> (r: u32)
    ensures
        r == s_opcode(i),
{
    i & 0x7F
}

pub fn funct3(i: u32) -> (r: u32)
    ensures
        r == s_funct3(i),
{
    (i >> 12) & 0x7
}

pub fn funct7(i: u32) -> (r: u32)
    ensures
        r == s_funct7(i),
{
    i >> 25
}

pub fn rd(i: u32) -> (r: usize)
    ensures
        r == s_rd(i),
        r < 32,
{
    proof {
        assert((i >> 7) & 0x1F < 32) by (bit_vector);
    }
    ((i >> 7) & 0x1F) as usize
}

pub fn rs1(i: u32) -> (r: usize)
    ensures
        r == s_rs1(i),
        r < 32,
{
    proof {
        assert((i >> 15) & 0x1F < 32) by (bit_vector);
    }
    ((i >> 15) & 0x1F) as usize
}

pub fn rs2(i: u32) -> (r: usize)
    ensures
        r == s_rs2(i),
        r < 32,
{
    proof {
        assert((i >> 20) & 0x1F < 32) by (bit_vector);
    }
    ((i >> 20) & 0x1F) as usize
}

pub fn csr_address(i: u32) -> (r: usize)
    ensures
        r == s_csr(i),
        r < 4096,
{
    proof {
        assert(i >> 20 < 4096) by (bit_vector);
    }
    (i >> 20) as usize
}

pub fn imm_i(i: u32) -> (r: u64)
    ensures
        r == s_imm_i(i),
{
    (((i as i32) >> 20) as i64) as u64
}

pub fn imm_s(i: u32) -> (r: u64)
    ensures
        r == s_imm_s(i),
{
    (((((i & 0xFE00_0000) as i32) >> 20) as i64) as u64) | (((i >> 7) & 0x1F) as u64)
}

pub fn imm_b(i: u32) -> (r: u64)
    ensures
        r == s_imm_b(i),
{
    (((((i & 0x8000_0000) as i32) >> 19) as i64) as u64) | (((i & 0x80) as u64) << 4u64) | (((i
        >> 20) & 0x7E0) as u64) | (((i >> 7) & 0x1E) as u64)
}

pub fn imm_u(i: u32) -> (r: u64)
    ensures
        r == s_imm_u(i),
{
    (((i & 0xFFFF_F000) as i32) as i64) as u64
}

pub fn imm_j(i: u32) -> (r: u64)
    ensures
        r == s_imm_j(i),
{
    (((((i & 0x8000_0000) as i32) >> 11) as i64) as u64) | ((i & 0xFF000) as u64) | (((i >> 9)
        & 0x800) as u64) | (((i >> 20) & 0x7FE) as u64)
}

pub fn shamt6(i: u32) -> (r: u32)
    ensures
        r == s_shamt6(i),
        r < 64,
{
    proof {
        assert((i >> 20) & 0x3F < 64) by (bit_vector);
    }
    (i >> 20) & 0x3F
}

pub fn shamt5(i: u32) -> (r: u32)
    ensures
        r == s_shamt5(i),
        r < 32,
{
    proof {
        assert((i >> 20) & 0x1F < 32) by (bit_vector);
    }
    (i >> 20) & 0x1F
}

} // verus!
