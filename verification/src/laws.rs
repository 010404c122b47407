//! The architectural guarantees of the core, proved once and for all against
//! the reference step function: the hardwired zero register, program-counter
//! alignment, the cycle counter, word-width sign extension, the ALU identity
//! on `x0`, the store/load round trip, branch determinism, the
//! load-reserved / store-conditional protocol, and the division-by-zero
//! contract.

use vstd::prelude::*;

use crate::alu::{branch_taken, sem_div, sem_divu, sem_rem, sem_remu, sext16, sext32, sext8};
use crate::bus::{
    in_window, spec_bus_read, spec_bus_write, spec_region_write, Width, RAM_BASE, ROM_BASE,
};
use crate::cpu::{
    spec_cycle, spec_fetch, spec_retire, spec_step, CpuView, CSR_CYCLE, CSR_FCSR, view_wf,
};
use crate::decode::{
    s_csr, s_funct3, s_funct7, s_imm_b, s_imm_i, s_imm_j, s_imm_s, s_opcode, s_rd, s_rs1, s_rs2,
};
use crate::exception::RVException;
use vstd::wrapping::u64_specs;

verus! {

/// The decoded register and CSR indices always address into the files.
pub proof fn lemma_field_bounds(i: u32)
    by (bit_vector)
    ensures
        (i >> 7) & 0x1F < 32,
        (i >> 15) & 0x1F < 32,
        (i >> 20) & 0x1F < 32,
        i >> 20 < 4096,
{
}

/// Every successful step leaves a well-formed machine.
#[verifier::rlimit(50)]
pub proof fn lemma_step_wf(pre: CpuView, i: u32)
    requires
        view_wf(pre),
    ensures
        spec_step(pre, i) matches Ok(p) ==> view_wf(p),
{
    lemma_field_bounds(i);
    if spec_step(pre, i) is Ok {
        let p = spec_step(pre, i)->Ok_0;
        let op = s_opcode(i);
        if op == 0x37 || op == 0x17 || op == 0x6F || op == 0x67 {
            assert(view_wf(p));
        } else if op == 0x63 || op == 0x03 || op == 0x23 || op == 0x13 || op == 0x1B {
            assert(view_wf(p));
        } else if op == 0x33 || op == 0x3B || op == 0x0F {
            assert(view_wf(p));
        } else {
            assert(view_wf(p));
        }
    }
}

/// After every retired instruction, `x[0]` reads as zero.
pub proof fn lemma_x0_hardwired_zero(pre: CpuView)
    requires
        view_wf(pre),
    ensures
        spec_cycle(pre) matches Ok(post) ==> post.xregs[0] == 0,
{
    if spec_fetch(pre) is Ok {
        lemma_step_wf(pre, spec_fetch(pre)->Ok_0);
    }
}

/// Adding two 4-aligned values with wrap-around stays 4-aligned.
proof fn lemma_wrapping_add_mod4(a: u64, b: u64)
    requires
        a % 4 == 0,
        b % 4 == 0,
    ensures
        u64_specs::wrapping_add(a, b) % 4 == 0,
{
    if a + b > u64::MAX {
        assert(u64_specs::wrapping_add(a, b) == (a + b - 0x1_0000_0000_0000_0000) as u64);
        assert((a + b - 0x1_0000_0000_0000_0000) % 4 == 0);
    }
}

/// Whether the control transfer of `i` out of `pre` lands on a 4-aligned
/// address: the jump offsets and targets of `JAL`, `JALR` and taken branches
/// must be multiples of 4 (the core does not model the misaligned-fetch
/// fault, so a misaligned target is a guest programming error).
pub open spec fn aligned_control_flow(pre: CpuView, i: u32) -> bool {
    match s_opcode(i) {
        0x6Fu32 => s_imm_j(i) % 4 == 0,
        0x67u32 => (u64_specs::wrapping_add(pre.xregs[s_rs1(i) as int], s_imm_i(i))
            & 0xFFFF_FFFF_FFFF_FFFE) % 4 == 0,
        0x63u32 => branch_taken(s_funct3(i), pre.xregs[s_rs1(i) as int], pre.xregs[s_rs2(i) as int])
            == Some(true) ==> s_imm_b(i) % 4 == 0,
        _ => true,
    }
}

/// The program counter stays 4-aligned across every retired instruction
/// whose control transfer is aligned.
pub proof fn lemma_pc_alignment(pre: CpuView, i: u32)
    requires
        view_wf(pre),
        pre.pc % 4 == 0,
        aligned_control_flow(pre, i),
    ensures
        spec_step(pre, i) matches Ok(p) ==> p.pc % 4 == 0,
{
    lemma_wrapping_add_mod4(pre.pc, 4);
    if s_opcode(i) == 0x6F {
        lemma_wrapping_add_mod4(pre.pc, s_imm_j(i));
    }
    if s_opcode(i) == 0x63 && branch_taken(
        s_funct3(i),
        pre.xregs[s_rs1(i) as int],
        pre.xregs[s_rs2(i) as int],
    ) == Some(true) {
        lemma_wrapping_add_mod4(pre.pc, s_imm_b(i));
    }
}

/// The program counter stays 4-aligned across a full retired cycle whose
/// control transfer is aligned.
pub proof fn lemma_pc_alignment_cycle(pre: CpuView)
    requires
        view_wf(pre),
        pre.pc % 4 == 0,
        spec_fetch(pre) matches Ok(w) ==> aligned_control_flow(pre, w),
    ensures
        spec_cycle(pre) matches Ok(post) ==> post.pc % 4 == 0,
{
    if spec_fetch(pre) is Ok {
        lemma_pc_alignment(pre, spec_fetch(pre)->Ok_0);
    }
}

/// Whether `i` is a CSR instruction that writes the `cycle` CSR itself.
pub open spec fn writes_cycle_csr(i: u32) -> bool {
    s_opcode(i) == 0x73 && s_funct3(i) != 0 && s_csr(i) == 0xC00
}

/// The `cycle` CSR advances by exactly one across every retired instruction
/// that does not itself write that CSR.
pub proof fn lemma_cycle_counter(pre: CpuView, i: u32)
    requires
        view_wf(pre),
        !writes_cycle_csr(i),
    ensures
        spec_step(pre, i) matches Ok(p) ==> spec_retire(p).csrs[CSR_CYCLE as int]
            == u64_specs::wrapping_add(pre.csrs[CSR_CYCLE as int], 1),
{
    lemma_field_bounds(i);
}

/// The `cycle` CSR advances by exactly one across every full retired cycle
/// whose instruction does not itself write that CSR.
pub proof fn lemma_cycle_counter_cycle(pre: CpuView)
    requires
        view_wf(pre),
        spec_fetch(pre) matches Ok(w) ==> !writes_cycle_csr(w),
    ensures
        spec_cycle(pre) matches Ok(post) ==> post.csrs[CSR_CYCLE as int]
            == u64_specs::wrapping_add(pre.csrs[CSR_CYCLE as int], 1),
{
    if spec_fetch(pre) is Ok {
        lemma_cycle_counter(pre, spec_fetch(pre)->Ok_0);
    }
}

/// Facts about 32-bit sign extension: it is idempotent, all-ones is a fixed
/// point, and the upper half is exactly the replication of bit 31.
pub proof fn lemma_sext32_shape(x: u64)
    by (bit_vector)
    ensures
        sext32(sext32(x)) == sext32(x),
        sext32(0xFFFF_FFFF_FFFF_FFFFu64) == 0xFFFF_FFFF_FFFF_FFFFu64,
        (sext32(x) >> 32) == (if (x >> 31) & 1 == 1 {
            0xFFFF_FFFFu64
        } else {
            0u64
        }),
{
}

/// Word-width results are sign-extended: after any instruction of the
/// word-width ALU groups, an `LW`, or an `FMV.X.W`, the upper 32 bits of the
/// destination are the sign extension of bit 31 of the 32-bit result.
pub proof fn lemma_word_results_sign_extended(pre: CpuView, i: u32)
    requires
        view_wf(pre),
        s_opcode(i) == 0x1B || s_opcode(i) == 0x3B || (s_opcode(i) == 0x03 && s_funct3(i) == 2) || (
        s_opcode(i) == 0x53 && s_funct7(i) == 0x70 && s_funct3(i) == 0),
    ensures
        spec_step(pre, i) matches Ok(p) ==> p.xregs[s_rd(i) as int] == sext32(
            p.xregs[s_rd(i) as int],
        ),
{
    lemma_field_bounds(i);
    if spec_step(pre, i) is Ok {
        let p = spec_step(pre, i)->Ok_0;
        assert forall|y: u64| sext32(sext32(y)) == sext32(y) by {
            lemma_sext32_shape(y);
        }
        lemma_sext32_shape(0);
    }
}

/// The same invariant across a full retired cycle: the destination of a
/// word-width instruction reads back sign-extended (also when it is `x[0]`
/// and retirement forced it to zero).
pub proof fn lemma_word_results_sign_extended_cycle(pre: CpuView)
    requires
        view_wf(pre),
        spec_fetch(pre) matches Ok(w) ==> (s_opcode(w) == 0x1B || s_opcode(w) == 0x3B || (
        s_opcode(w) == 0x03 && s_funct3(w) == 2)),
    ensures
        spec_cycle(pre) matches Ok(post) ==> {
            let w = spec_fetch(pre)->Ok_0;
            post.xregs[s_rd(w) as int] == sext32(post.xregs[s_rd(w) as int])
        },
{
    if spec_fetch(pre) is Ok && spec_cycle(pre) is Ok {
        let w = spec_fetch(pre)->Ok_0;
        lemma_field_bounds(w);
        lemma_word_results_sign_extended(pre, w);
        lemma_sext32_shape(0);
        lemma_step_wf(pre, w);
    }
}

/// ALU identity: `ADD rd, rs1, x0` writes `x[rs1]` into `x[rd]` unchanged.
pub proof fn lemma_add_identity(pre: CpuView, i: u32)
    requires
        view_wf(pre),
        pre.xregs[0] == 0,
        s_opcode(i) == 0x33,
        s_funct3(i) == 0,
        s_funct7(i) == 0,
        s_rs2(i) == 0,
    ensures
        spec_step(pre, i) matches Ok(p) && p.xregs[s_rd(i) as int] == pre.xregs[s_rs1(i) as int],
{
    lemma_field_bounds(i);
}

/// The low bytes of `v` kept by a store of width `w`, zero-extended.
pub open spec fn trunc_w(v: u64, w: Width) -> u64 {
    match w {
        Width::Byte => (v as u8) as u64,
        Width::Half => (v as u16) as u64,
        Width::Word => (v as u32) as u64,
        Width::Double => v,
    }
}

proof fn lemma_le_roundtrip_half(v: u64, b0: u8, b1: u8)
    by (bit_vector)
    requires
        b0 == v as u8,
        b1 == (v >> 8) as u8,
    ensures
        (b0 as u64) | ((b1 as u64) << 8) == (v as u16) as u64,
{
}

proof fn lemma_le_roundtrip_word(v: u64, b0: u8, b1: u8, b2: u8, b3: u8)
    by (bit_vector)
    requires
        b0 == v as u8,
        b1 == (v >> 8) as u8,
        b2 == (v >> 16) as u8,
        b3 == (v >> 24) as u8,
    ensures
        (b0 as u64) | ((b1 as u64) << 8) | ((b2 as u64) << 16) | ((b3 as u64) << 24) == (
        v as u32) as u64,
{
}

proof fn lemma_le_roundtrip_double(v: u64, b0: u8, b1: u8, b2: u8, b3: u8, b4: u8, b5: u8, b6: u8, b7: u8)
    by (bit_vector)
    requires
        b0 == v as u8,
        b1 == (v >> 8) as u8,
        b2 == (v >> 16) as u8,
        b3 == (v >> 24) as u8,
        b4 == (v >> 32) as u8,
        b5 == (v >> 40) as u8,
        b6 == (v >> 48) as u8,
        b7 == (v >> 56) as u8,
    ensures
        (b0 as u64) | ((b1 as u64) << 8) | ((b2 as u64) << 16) | ((b3 as u64) << 24) | ((b4 as u64)
            << 32) | ((b5 as u64) << 40) | ((b6 as u64) << 48) | ((b7 as u64) << 56) == v,
{
}

/// Sign-extending the kept truncation equals sign-extending the stored
/// value's low bits, for each sub-word width.
pub proof fn lemma_sext_of_trunc(v: u64)
    by (bit_vector)
    ensures
        sext8(trunc_w(v, Width::Byte)) == sext8(v),
        sext16(trunc_w(v, Width::Half)) == sext16(v),
        sext32(trunc_w(v, Width::Word)) == sext32(v),
{
}

/// Store/load round trip: after a successful store of `v` with width `w` at
/// address `a`, an unsigned load of the same width at `a` yields `v`
/// truncated to that width; by [`lemma_sext_of_trunc`], the signed loads
/// yield the sign-extension of that same truncation.
pub proof fn lemma_store_load_roundtrip(rom: Seq<u8>, ram: Seq<u8>, a: u64, w: Width, v: u64)
    requires
        spec_bus_write(rom, ram, a, w, v) is Ok,
    ensures
        spec_bus_read(rom, spec_bus_write(rom, ram, a, w, v)->Ok_0, a, w) == Ok::<u64, RVException>(
            trunc_w(v, w),
        ),
{
    let ram2 = spec_bus_write(rom, ram, a, w, v)->Ok_0;
    let off = (a - RAM_BASE) as u64;
    let i = off as int;
    assert(ram2 == spec_region_write(ram, off, w, v)->Ok_0);
    match w {
        Width::Byte => {},
        Width::Half => {
            lemma_le_roundtrip_half(v, ram2[i], ram2[i + 1]);
        },
        Width::Word => {
            lemma_le_roundtrip_word(v, ram2[i], ram2[i + 1], ram2[i + 2], ram2[i + 3]);
        },
        Width::Double => {
            lemma_le_roundtrip_double(
                v,
                ram2[i],
                ram2[i + 1],
                ram2[i + 2],
                ram2[i + 3],
                ram2[i + 4],
                ram2[i + 5],
                ram2[i + 6],
                ram2[i + 7],
            );
        },
    }
}

/// Every store whose address falls in the ROM window faults and changes
/// nothing.
pub proof fn lemma_rom_store_faults(rom: Seq<u8>, ram: Seq<u8>, a: u64, w: Width, v: u64)
    requires
        in_window(a, ROM_BASE, rom.len()),
    ensures
        spec_bus_write(rom, ram, a, w, v) == Err::<Seq<u8>, RVException>(
            RVException::StoreAccessFault,
        ),
{
}

/// Every access outside both windows faults.
pub proof fn lemma_unmapped_access_faults(rom: Seq<u8>, ram: Seq<u8>, a: u64, w: Width, v: u64)
    requires
        !in_window(a, ROM_BASE, rom.len()),
        !in_window(a, RAM_BASE, ram.len()),
    ensures
        spec_bus_read(rom, ram, a, w) == Err::<u64, RVException>(RVException::LoadAccessFault),
        spec_bus_write(rom, ram, a, w, v) == Err::<Seq<u8>, RVException>(
            RVException::StoreAccessFault,
        ),
{
}

/// Branch determinism: from two states that agree on the program counter and
/// the two source registers, the same branch instruction reaches the same
/// next program counter (and fails identically on an undefined comparison).
pub proof fn lemma_branch_determinism(pre1: CpuView, pre2: CpuView, i: u32)
    requires
        view_wf(pre1),
        view_wf(pre2),
        s_opcode(i) == 0x63,
        pre1.pc == pre2.pc,
        pre1.xregs[s_rs1(i) as int] == pre2.xregs[s_rs1(i) as int],
        pre1.xregs[s_rs2(i) as int] == pre2.xregs[s_rs2(i) as int],
    ensures
        spec_step(pre1, i) is Ok <==> spec_step(pre2, i) is Ok,
        spec_step(pre1, i) is Ok ==> spec_step(pre1, i)->Ok_0.pc == spec_step(pre2, i)->Ok_0.pc,
        spec_step(pre1, i) is Err ==> spec_step(pre1, i) == spec_step(pre2, i),
{
}

/// A successful load-reserved records a reservation for its address and
/// reads without modifying memory.
pub proof fn lemma_lr_records_reservation(pre: CpuView, i: u32)
    requires
        view_wf(pre),
        s_opcode(i) == 0x2F,
        s_funct3(i) == 2 || s_funct3(i) == 3,
        s_funct7(i) >> 2 == 0x02,
    ensures
        spec_step(pre, i) matches Ok(p) ==> p.reservations.contains(pre.xregs[s_rs1(i) as int])
            && p.ram == pre.ram,
{
    lemma_field_bounds(i);
    let addr = pre.xregs[s_rs1(i) as int];
    if spec_step(pre, i) is Ok {
        if !pre.reservations.contains(addr) {
            assert(pre.reservations.push(addr)[pre.reservations.len() as int] == addr);
        }
    }
}

/// Every ordinary store removes the reservation for the address it writes:
/// a store-conditional that follows can no longer succeed there.
pub proof fn lemma_store_invalidates_reservation(pre: CpuView, i: u32)
    requires
        view_wf(pre),
        s_opcode(i) == 0x23,
    ensures
        spec_step(pre, i) matches Ok(p) ==> !p.reservations.contains(
            u64_specs::wrapping_add(pre.xregs[s_rs1(i) as int], s_imm_s(i)),
        ),
{
    lemma_field_bounds(i);
    crate::cpu::lemma_without_excludes(
        pre.reservations,
        u64_specs::wrapping_add(pre.xregs[s_rs1(i) as int], s_imm_s(i)),
    );
}

/// A store-conditional with no matching reservation writes 1 to `rd` and
/// leaves all of memory unchanged, and still consumes nothing it did not
/// hold; the only alignment of the address is required.
pub proof fn lemma_sc_without_reservation(pre: CpuView, i: u32)
    requires
        view_wf(pre),
        s_opcode(i) == 0x2F,
        s_funct3(i) == 2 || s_funct3(i) == 3,
        s_funct7(i) >> 2 == 0x03,
        pre.xregs[s_rs1(i) as int] % (if s_funct3(i) == 2 {
            4u64
        } else {
            8u64
        }) == 0,
        !pre.reservations.contains(pre.xregs[s_rs1(i) as int]),
    ensures
        spec_step(pre, i) matches Ok(p) && p.ram == pre.ram && p.rom == pre.rom && p.xregs[s_rd(
            i,
        ) as int] == 1,
{
    lemma_field_bounds(i);
}

/// A store-conditional under a live reservation performs its store, writes 0
/// to `rd`, and leaves no reservation at the address.
pub proof fn lemma_sc_with_reservation(pre: CpuView, i: u32)
    requires
        view_wf(pre),
        s_opcode(i) == 0x2F,
        s_funct3(i) == 2 || s_funct3(i) == 3,
        s_funct7(i) >> 2 == 0x03,
        pre.xregs[s_rs1(i) as int] % (if s_funct3(i) == 2 {
            4u64
        } else {
            8u64
        }) == 0,
        pre.reservations.contains(pre.xregs[s_rs1(i) as int]),
        spec_bus_write(
            pre.rom,
            pre.ram,
            pre.xregs[s_rs1(i) as int],
            if s_funct3(i) == 2 {
                Width::Word
            } else {
                Width::Double
            },
            pre.xregs[s_rs2(i) as int],
        ) is Ok,
    ensures
        spec_step(pre, i) matches Ok(p) && p.xregs[s_rd(i) as int] == 0 && p.ram == spec_bus_write(
            pre.rom,
            pre.ram,
            pre.xregs[s_rs1(i) as int],
            if s_funct3(i) == 2 {
                Width::Word
            } else {
                Width::Double
            },
            pre.xregs[s_rs2(i) as int],
        )->Ok_0 && !p.reservations.contains(pre.xregs[s_rs1(i) as int]),
{
    lemma_field_bounds(i);
    crate::cpu::lemma_without_excludes(pre.reservations, pre.xregs[s_rs1(i) as int]);
}

/// The division-by-zero contract of the value level: a zero divisor makes
/// `DIV`/`DIVU` return all-ones and `REM`/`REMU` return the dividend.
pub proof fn lemma_division_by_zero(a: u64)
    ensures
        sem_div(a, 0) == u64::MAX,
        sem_divu(a, 0) == u64::MAX,
        sem_rem(a, 0) == a,
        sem_remu(a, 0) == a,
{
}

proof fn lemma_or_keeps_bit(x: u64)
    by (bit_vector)
    ensures
        (x | 0x8) & 0x8 == 0x8,
{
}

/// A divide with a zero divisor sets the DZ flag of `fcsr`, for `DIV` and
/// `DIVU` at both widths.
pub proof fn lemma_div_zero_sets_dz(pre: CpuView, i: u32)
    requires
        view_wf(pre),
        s_opcode(i) == 0x33 || s_opcode(i) == 0x3B,
        s_funct7(i) == 1,
        s_funct3(i) == 4 || s_funct3(i) == 5,
        s_opcode(i) == 0x33 ==> pre.xregs[s_rs2(i) as int] == 0,
        s_opcode(i) == 0x3B ==> (pre.xregs[s_rs2(i) as int] as u32) == 0,
    ensures
        spec_step(pre, i) matches Ok(p) && p.csrs[CSR_FCSR as int] & 0x8 == 0x8,
{
    lemma_field_bounds(i);
    lemma_or_keeps_bit(pre.csrs[CSR_FCSR as int]);
}

} // verus!
