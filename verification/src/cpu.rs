//! The processor core: architectural state and the fetch–decode–execute
//! cycle.
//!
//! The reference semantics is the spec function [`spec_cycle`]: from a machine
//! view it either yields the machine view after one retired instruction or
//! the exception that the cycle raised. A raised exception leaves the
//! machine unchanged. [`CPU::fetch_and_execute`] is verified to agree with
//! `spec_cycle` exactly.
//!
//! On retirement `x[0]` is forced back to zero and the `cycle` CSR advances
//! by one; both are part of [`spec_retire`].

use vstd::prelude::*;

use crate::alu::{
    amo_result, amo_result_exec, branch_taken, branch_taken_exec, div_exec, divu_exec, divuw_exec,
    divw_exec, lemma_shift_mask, mulh_exec, mulhsu_exec, mulhu_exec, rem_exec, remu_exec,
    remuw_exec, remw_exec, sem_div, sem_divu, sem_divuw, sem_divw, sem_mulh, sem_mulhsu, sem_mulhu,
    sem_rem, sem_remu, sem_remuw, sem_remw, sext16, sext16_exec, sext32, sext32_exec, sext8,
    sext8_exec, slt64, sltu64,
};
use crate::bus::{spec_bus_read, spec_bus_write, Bus, Device, Width, RAM_BASE};
use crate::decode::{
    csr_address, funct3, funct7, imm_b, imm_i, imm_j, imm_s, imm_u, opcode, rd, rs1, rs2, s_csr,
    s_funct3, s_funct7, s_imm_b, s_imm_i, s_imm_j, s_imm_s, s_imm_u, s_opcode, s_rd, s_rs1, s_rs2,
    s_shamt5, s_shamt6, shamt5, shamt6,
};
use crate::exception::RVException;
use crate::fpu::{
    fclass_exec, feq_exec, fle_exec, flt_exec, fmax_exec, fmin_exec, fsgnj_exec, fsgnjn_exec,
    fsgnjx_exec, sem_fclass, sem_feq, sem_fle, sem_flt, sem_fmax, sem_fmin, sem_fsgnj, sem_fsgnjn,
    sem_fsgnjx,
};
use vstd::wrapping::u32_specs;
use vstd::wrapping::u64_specs;

verus! {

/// CSR address of the retired-instruction counter.
pub const CSR_CYCLE: usize = 0xC00;

/// CSR address of the wall-clock counter.
pub const CSR_TIME: usize = 0xC01;

/// CSR address of the floating-point control and status register; its bit 3
/// is the divide-by-zero (DZ) flag.
pub const CSR_FCSR: usize = 0x003;

/// The divide-by-zero flag bit inside `fcsr`.
pub const FCSR_DZ: u64 = 0x8;

/// The architectural state as mathematical values: the 32 integer registers,
/// the 32 single-precision float registers (as bit patterns), the program
/// counter, the 4096 CSR cells, the reservation set of load-reserved
/// addresses, and the two memory regions.
#[verifier::ext_equal]
pub struct CpuView {
    pub xregs: Seq<u64>,
    pub fregs: Seq<u32>,
    pub pc: u64,
    pub csrs: Seq<u64>,
    pub reservations: Seq<u64>,
    pub rom: Seq<u8>,
    pub ram: Seq<u8>,
}

/// Shape of a valid machine view: full register and CSR files.
pub open spec fn view_wf(v: CpuView) -> bool {
    &&& v.xregs.len() == 32
    &&& v.fregs.len() == 32
    &&& v.csrs.len() == 4096
}

/// `v` with `x[rd]` set and the program counter moved.
pub open spec fn upd_rd(v: CpuView, i: u32, val: u64, pc2: u64) -> CpuView {
    CpuView { xregs: v.xregs.update(s_rd(i) as int, val), pc: pc2, ..v }
}

/// `v` with `f[rd]` set and the program counter moved.
pub open spec fn upd_frd(v: CpuView, i: u32, val: u32, pc2: u64) -> CpuView {
    CpuView { fregs: v.fregs.update(s_rd(i) as int, val), pc: pc2, ..v }
}

/// The reservation set with every entry for `a` removed.
pub open spec fn without(s: Seq<u64>, a: u64) -> Seq<u64> {
    s.filter(|x: u64| x != a)
}

/// Removing an address really removes it: the filtered set never contains
/// it, and every other address is kept.
pub proof fn lemma_without_excludes(s: Seq<u64>, a: u64)
    ensures
        !without(s, a).contains(a),
        forall|b: u64| b != a ==> (without(s, a).contains(b) <==> s.contains(b)),
    decreases s.len(),
{
    reveal(Seq::filter);
    if s.len() == 0 {
    } else {
        lemma_without_excludes(s.drop_last(), a);
        let t = without(s.drop_last(), a);
        if s.last() != a {
            assert(without(s, a) == t.push(s.last()));
            assert(!without(s, a).contains(a)) by {
                assert(forall|j: int|
                    0 <= j < t.push(s.last()).len() ==> t.push(s.last())[j] != a);
            }
            assert forall|b: u64| b != a implies (without(s, a).contains(b) <==> s.contains(
                b,
            )) by {
                if without(s, a).contains(b) {
                    let j = choose|j: int| 0 <= j < without(s, a).len() && without(s, a)[j] == b;
                    if j < t.len() {
                        assert(t.contains(b));
                        assert(s.drop_last().contains(b));
                        let k = choose|k: int|
                            0 <= k < s.drop_last().len() && s.drop_last()[k] == b;
                        assert(s[k] == b);
                    } else {
                        assert(s[s.len() - 1] == b);
                    }
                }
                if s.contains(b) {
                    let k = choose|k: int| 0 <= k < s.len() && s[k] == b;
                    if k < s.len() - 1 {
                        assert(s.drop_last()[k] == b);
                        assert(t.contains(b));
                        let j = choose|j: int| 0 <= j < t.len() && t[j] == b;
                        assert(without(s, a)[j] == b);
                    } else {
                        assert(without(s, a)[t.len() as int] == b);
                    }
                }
            }
        } else {
            assert(without(s, a) == t);
            assert forall|b: u64| b != a implies (without(s, a).contains(b) <==> s.contains(
                b,
            )) by {
                if t.contains(b) {
                    assert(s.drop_last().contains(b));
                    let k = choose|k: int| 0 <= k < s.drop_last().len() && s.drop_last()[k] == b;
                    assert(s[k] == b);
                }
                if s.contains(b) {
                    let k = choose|k: int| 0 <= k < s.len() && s[k] == b;
                    if k < s.len() - 1 {
                        assert(s.drop_last()[k] == b);
                    } else {
                        assert(s.last() == b);
                        assert(false);
                    }
                }
            }
        }
    }
}

/// The reservation set with `a` added, deduplicated.
pub open spec fn with_res(s: Seq<u64>, a: u64) -> Seq<u64> {
    if s.contains(a) {
        s
    } else {
        s.push(a)
    }
}

/// Memory access width selected by `funct3` for loads and stores.
pub open spec fn store_width(f3: u32) -> Option<Width> {
    match f3 {
        0u32 => Some(Width::Byte),
        1u32 => Some(Width::Half),
        2u32 => Some(Width::Word),
        3u32 => Some(Width::Double),
        _ => None,
    }
}

/// `LUI`, `AUIPC`, `JAL` and `JALR`.
pub open spec fn spec_step_upper_and_jumps(pre: CpuView, i: u32) -> Result<CpuView, RVException> {
    let pc4 = u64_specs::wrapping_add(pre.pc, 4);
    let a = pre.xregs[s_rs1(i) as int];
    match s_opcode(i) {
        0x37u32 => Ok(upd_rd(pre, i, s_imm_u(i), pc4)),
        0x17u32 => Ok(upd_rd(pre, i, u64_specs::wrapping_add(pre.pc, s_imm_u(i)), pc4)),
        0x6Fu32 => Ok(upd_rd(pre, i, pc4, u64_specs::wrapping_add(pre.pc, s_imm_j(i)))),
        _ => Ok(
            upd_rd(pre, i, pc4, u64_specs::wrapping_add(a, s_imm_i(i)) & 0xFFFF_FFFF_FFFF_FFFE),
        ),
    }
}

/// The conditional branches.
pub open spec fn spec_step_branch(pre: CpuView, i: u32) -> Result<CpuView, RVException> {
    let pc4 = u64_specs::wrapping_add(pre.pc, 4);
    let a = pre.xregs[s_rs1(i) as int];
    let b = pre.xregs[s_rs2(i) as int];
    match branch_taken(s_funct3(i), a, b) {
        Some(t) => Ok(
            CpuView {
                pc: if t {
                    u64_specs::wrapping_add(pre.pc, s_imm_b(i))
                } else {
                    pc4
                },
                ..pre
            },
        ),
        None => Err(RVException::IllegalInstruction(i)),
    }
}

/// The loads: a bus read at `x[rs1] + imm`, extended to the register width
/// per the mnemonic.
pub open spec fn spec_step_load(pre: CpuView, i: u32) -> Result<CpuView, RVException> {
    let pc4 = u64_specs::wrapping_add(pre.pc, 4);
    let addr = u64_specs::wrapping_add(pre.xregs[s_rs1(i) as int], s_imm_i(i));
    match s_funct3(i) {
        0u32 => match spec_bus_read(pre.rom, pre.ram, addr, Width::Byte) {
            Ok(v) => Ok(upd_rd(pre, i, sext8(v), pc4)),
            Err(e) => Err(e),
        },
        1u32 => match spec_bus_read(pre.rom, pre.ram, addr, Width::Half) {
            Ok(v) => Ok(upd_rd(pre, i, sext16(v), pc4)),
            Err(e) => Err(e),
        },
        2u32 => match spec_bus_read(pre.rom, pre.ram, addr, Width::Word) {
            Ok(v) => Ok(upd_rd(pre, i, sext32(v), pc4)),
            Err(e) => Err(e),
        },
        3u32 => match spec_bus_read(pre.rom, pre.ram, addr, Width::Double) {
            Ok(v) => Ok(upd_rd(pre, i, v, pc4)),
            Err(e) => Err(e),
        },
        4u32 => match spec_bus_read(pre.rom, pre.ram, addr, Width::Byte) {
            Ok(v) => Ok(upd_rd(pre, i, v, pc4)),
            Err(e) => Err(e),
        },
        5u32 => match spec_bus_read(pre.rom, pre.ram, addr, Width::Half) {
            Ok(v) => Ok(upd_rd(pre, i, v, pc4)),
            Err(e) => Err(e),
        },
        6u32 => match spec_bus_read(pre.rom, pre.ram, addr, Width::Word) {
            Ok(v) => Ok(upd_rd(pre, i, v, pc4)),
            Err(e) => Err(e),
        },
        _ => Err(RVException::IllegalInstruction(i)),
    }
}

/// The stores: a bus write of the low bytes of `x[rs2]` at `x[rs1] + imm`.
/// Every store invalidates the reservation for the written address.
pub open spec fn spec_step_store(pre: CpuView, i: u32) -> Result<CpuView, RVException> {
    let pc4 = u64_specs::wrapping_add(pre.pc, 4);
    let addr = u64_specs::wrapping_add(pre.xregs[s_rs1(i) as int], s_imm_s(i));
    let b = pre.xregs[s_rs2(i) as int];
    match store_width(s_funct3(i)) {
        Some(w) => match spec_bus_write(pre.rom, pre.ram, addr, w, b) {
            Ok(ram2) => Ok(
                CpuView { ram: ram2, reservations: without(pre.reservations, addr), pc: pc4, ..pre },
            ),
            Err(e) => Err(e),
        },
        None => Err(RVException::IllegalInstruction(i)),
    }
}

/// The register-immediate ALU group.
pub open spec fn spec_step_imm(pre: CpuView, i: u32) -> Result<CpuView, RVException> {
    let pc4 = u64_specs::wrapping_add(pre.pc, 4);
    let a = pre.xregs[s_rs1(i) as int];
    let imm = s_imm_i(i);
    match s_funct3(i) {
        0u32 => Ok(upd_rd(pre, i, u64_specs::wrapping_add(a, imm), pc4)),
        1u32 => Ok(upd_rd(pre, i, a << (s_shamt6(i) as u64), pc4)),
        2u32 => Ok(upd_rd(pre, i, slt64(a, imm), pc4)),
        3u32 => Ok(upd_rd(pre, i, sltu64(a, imm), pc4)),
        4u32 => Ok(upd_rd(pre, i, a ^ imm, pc4)),
        5u32 => {
            if s_funct7(i) >> 1 == 0 {
                Ok(upd_rd(pre, i, a >> (s_shamt6(i) as u64), pc4))
            } else if s_funct7(i) >> 1 == 0x10 {
                Ok(upd_rd(pre, i, (((a as i64) >> (s_shamt6(i) as u64)) as u64), pc4))
            } else {
                Err(RVException::IllegalInstruction(i))
            }
        },
        6u32 => Ok(upd_rd(pre, i, a | imm, pc4)),
        _ => Ok(upd_rd(pre, i, a & imm, pc4)),
    }
}

/// The word-width register-immediate ALU group: 32-bit results sign-extended
/// to 64 bits.
pub open spec fn spec_step_imm32(pre: CpuView, i: u32) -> Result<CpuView, RVException> {
    let pc4 = u64_specs::wrapping_add(pre.pc, 4);
    let a = pre.xregs[s_rs1(i) as int];
    let sh = s_shamt5(i);
    match s_funct3(i) {
        0u32 => Ok(upd_rd(pre, i, sext32(u64_specs::wrapping_add(a, s_imm_i(i))), pc4)),
        1u32 => Ok(upd_rd(pre, i, sext32((((a as u32) << sh) as u64)), pc4)),
        5u32 => {
            if s_funct7(i) == 0 {
                Ok(upd_rd(pre, i, sext32((((a as u32) >> sh) as u64)), pc4))
            } else if s_funct7(i) == 0x20 {
                Ok(upd_rd(pre, i, sext32(((((a as i32) >> sh) as u32) as u64)), pc4))
            } else {
                Err(RVException::IllegalInstruction(i))
            }
        },
        _ => Err(RVException::IllegalInstruction(i)),
    }
}

/// The CSR state after a divide: the DZ flag of `fcsr` is set when a `DIV`
/// or `DIVU` of any width sees a zero divisor.
pub open spec fn csrs_after_div(pre: CpuView, b: u64) -> Seq<u64> {
    if b == 0 {
        pre.csrs.update(CSR_FCSR as int, pre.csrs[CSR_FCSR as int] | FCSR_DZ)
    } else {
        pre.csrs
    }
}

/// The register-register ALU group, including the M extension.
pub open spec fn spec_step_op(pre: CpuView, i: u32) -> Result<CpuView, RVException> {
    let pc4 = u64_specs::wrapping_add(pre.pc, 4);
    let a = pre.xregs[s_rs1(i) as int];
    let b = pre.xregs[s_rs2(i) as int];
    let f3 = s_funct3(i);
    let f7 = s_funct7(i);
    if f7 == 0 {
        match f3 {
            0u32 => Ok(upd_rd(pre, i, u64_specs::wrapping_add(a, b), pc4)),
            1u32 => Ok(upd_rd(pre, i, a << (b & 0x3F), pc4)),
            2u32 => Ok(upd_rd(pre, i, slt64(a, b), pc4)),
            3u32 => Ok(upd_rd(pre, i, sltu64(a, b), pc4)),
            4u32 => Ok(upd_rd(pre, i, a ^ b, pc4)),
            5u32 => Ok(upd_rd(pre, i, a >> (b & 0x3F), pc4)),
            6u32 => Ok(upd_rd(pre, i, a | b, pc4)),
            _ => Ok(upd_rd(pre, i, a & b, pc4)),
        }
    } else if f7 == 0x20 {
        match f3 {
            0u32 => Ok(upd_rd(pre, i, u64_specs::wrapping_sub(a, b), pc4)),
            5u32 => Ok(upd_rd(pre, i, (((a as i64) >> (b & 0x3F)) as u64), pc4)),
            _ => Err(RVException::IllegalInstruction(i)),
        }
    } else if f7 == 1 {
        match f3 {
            0u32 => Ok(upd_rd(pre, i, u64_specs::wrapping_mul(a, b), pc4)),
            1u32 => Ok(upd_rd(pre, i, sem_mulh(a, b), pc4)),
            2u32 => Ok(upd_rd(pre, i, sem_mulhsu(a, b), pc4)),
            3u32 => Ok(upd_rd(pre, i, sem_mulhu(a, b), pc4)),
            4u32 => Ok(
                CpuView {
                    xregs: pre.xregs.update(s_rd(i) as int, sem_div(a, b)),
                    pc: pc4,
                    csrs: csrs_after_div(pre, b),
                    ..pre
                },
            ),
            5u32 => Ok(
                CpuView {
                    xregs: pre.xregs.update(s_rd(i) as int, sem_divu(a, b)),
                    pc: pc4,
                    csrs: csrs_after_div(pre, b),
                    ..pre
                },
            ),
            6u32 => Ok(upd_rd(pre, i, sem_rem(a, b), pc4)),
            _ => Ok(upd_rd(pre, i, sem_remu(a, b), pc4)),
        }
    } else {
        Err(RVException::IllegalInstruction(i))
    }
}

/// The word-width register-register ALU group, including the M extension.
pub open spec fn spec_step_op32(pre: CpuView, i: u32) -> Result<CpuView, RVException> {
    let pc4 = u64_specs::wrapping_add(pre.pc, 4);
    let a = pre.xregs[s_rs1(i) as int];
    let b = pre.xregs[s_rs2(i) as int];
    let f3 = s_funct3(i);
    let f7 = s_funct7(i);
    if f7 == 0 {
        match f3 {
            0u32 => Ok(upd_rd(pre, i, sext32(u64_specs::wrapping_add(a, b)), pc4)),
            1u32 => Ok(upd_rd(pre, i, sext32((((a as u32) << ((b & 0x1F) as u32)) as u64)), pc4)),
            5u32 => Ok(upd_rd(pre, i, sext32((((a as u32) >> ((b & 0x1F) as u32)) as u64)), pc4)),
            _ => Err(RVException::IllegalInstruction(i)),
        }
    } else if f7 == 0x20 {
        match f3 {
            0u32 => Ok(upd_rd(pre, i, sext32(u64_specs::wrapping_sub(a, b)), pc4)),
            5u32 => Ok(
                upd_rd(pre, i, sext32((((((a as i32) >> ((b & 0x1F) as u32)) as u32)) as u64)), pc4),
            ),
            _ => Err(RVException::IllegalInstruction(i)),
        }
    } else if f7 == 1 {
        match f3 {
            0u32 => Ok(
                upd_rd(pre, i, sext32((u32_specs::wrapping_mul(a as u32, b as u32) as u64)), pc4),
            ),
            4u32 => Ok(
                CpuView {
                    xregs: pre.xregs.update(s_rd(i) as int, sem_divw(a, b)),
                    pc: pc4,
                    csrs: csrs_after_div(pre, ((b as u32) as u64)),
                    ..pre
                },
            ),
            5u32 => Ok(
                CpuView {
                    xregs: pre.xregs.update(s_rd(i) as int, sem_divuw(a, b)),
                    pc: pc4,
                    csrs: csrs_after_div(pre, ((b as u32) as u64)),
                    ..pre
                },
            ),
            6u32 => Ok(upd_rd(pre, i, sem_remw(a, b), pc4)),
            7u32 => Ok(upd_rd(pre, i, sem_remuw(a, b), pc4)),
            _ => Err(RVException::IllegalInstruction(i)),
        }
    } else {
        Err(RVException::IllegalInstruction(i))
    }
}

/// `FENCE` and `FENCE.I`: memory-ordering no-ops in a single-hart core.
pub open spec fn spec_step_fence(pre: CpuView, i: u32) -> Result<CpuView, RVException> {
    let pc4 = u64_specs::wrapping_add(pre.pc, 4);
    match s_funct3(i) {
        0u32 => Ok(CpuView { pc: pc4, ..pre }),
        1u32 => Ok(CpuView { pc: pc4, ..pre }),
        _ => Err(RVException::IllegalInstruction(i)),
    }
}

/// The atomic group: `LR`, `SC` and the read-modify-write operations, at
/// word or doubleword width, with natural-alignment checks.
pub open spec fn spec_step_amo(pre: CpuView, i: u32) -> Result<CpuView, RVException> {
    let pc4 = u64_specs::wrapping_add(pre.pc, 4);
    let addr = pre.xregs[s_rs1(i) as int];
    let src = pre.xregs[s_rs2(i) as int];
    let f3 = s_funct3(i);
    let f5 = s_funct7(i) >> 2;
    if f3 != 2 && f3 != 3 {
        Err(RVException::IllegalInstruction(i))
    } else {
        let w = if f3 == 2 {
            Width::Word
        } else {
            Width::Double
        };
        let align = if f3 == 2 {
            4u64
        } else {
            8u64
        };
        if addr % align != 0 {
            Err(RVException::LoadAddressMisaligned)
        } else if f5 == 0x02 {
            // load-reserved: read, record the reservation
            match spec_bus_read(pre.rom, pre.ram, addr, w) {
                Ok(v) => Ok(
                    CpuView {
                        xregs: pre.xregs.update(
                            s_rd(i) as int,
                            if f3 == 2 {
                                sext32(v)
                            } else {
                                v
                            },
                        ),
                        pc: pc4,
                        reservations: with_res(pre.reservations, addr),
                        ..pre
                    },
                ),
                Err(e) => Err(e),
            }
        } else if f5 == 0x03 {
            // store-conditional: store only under a live reservation; either
            // way the reservation is consumed
            if pre.reservations.contains(addr) {
                match spec_bus_write(pre.rom, pre.ram, addr, w, src) {
                    Ok(ram2) => Ok(
                        CpuView {
                            xregs: pre.xregs.update(s_rd(i) as int, 0),
                            pc: pc4,
                            ram: ram2,
                            reservations: without(pre.reservations, addr),
                            ..pre
                        },
                    ),
                    Err(e) => Err(e),
                }
            } else {
                Ok(
                    CpuView {
                        xregs: pre.xregs.update(s_rd(i) as int, 1),
                        pc: pc4,
                        reservations: without(pre.reservations, addr),
                        ..pre
                    },
                )
            }
        } else {
            match amo_result(f5, 0, 0, w) {
                // probe: is f5 a defined operation at all
                None => Err(RVException::IllegalInstruction(i)),
                Some(_) => match spec_bus_read(pre.rom, pre.ram, addr, w) {
                    Ok(v) => match spec_bus_write(
                        pre.rom,
                        pre.ram,
                        addr,
                        w,
                        amo_result(f5, v, src, w)->Some_0,
                    ) {
                        Ok(ram2) => Ok(
                            CpuView {
                                xregs: pre.xregs.update(
                                    s_rd(i) as int,
                                    if f3 == 2 {
                                        sext32(v)
                                    } else {
                                        v
                                    },
                                ),
                                pc: pc4,
                                ram: ram2,
                                reservations: without(pre.reservations, addr),
                                ..pre
                            },
                        ),
                        Err(e) => Err(e),
                    },
                    Err(e) => Err(e),
                },
            }
        }
    }
}

/// `FLW`: a 32-bit load into a float register.
pub open spec fn spec_step_flw(pre: CpuView, i: u32) -> Result<CpuView, RVException> {
    let pc4 = u64_specs::wrapping_add(pre.pc, 4);
    let addr = u64_specs::wrapping_add(pre.xregs[s_rs1(i) as int], s_imm_i(i));
    if s_funct3(i) == 2 {
        match spec_bus_read(pre.rom, pre.ram, addr, Width::Word) {
            Ok(v) => Ok(upd_frd(pre, i, v as u32, pc4)),
            Err(e) => Err(e),
        }
    } else {
        Err(RVException::IllegalInstruction(i))
    }
}

/// `FSW`: a 32-bit store of a float register's bits; like every store it
/// invalidates the reservation for the written address.
pub open spec fn spec_step_fsw(pre: CpuView, i: u32) -> Result<CpuView, RVException> {
    let pc4 = u64_specs::wrapping_add(pre.pc, 4);
    let addr = u64_specs::wrapping_add(pre.xregs[s_rs1(i) as int], s_imm_s(i));
    if s_funct3(i) == 2 {
        match spec_bus_write(pre.rom, pre.ram, addr, Width::Word, pre.fregs[s_rs2(i) as int] as u64) {
            Ok(ram2) => Ok(
                CpuView { ram: ram2, reservations: without(pre.reservations, addr), pc: pc4, ..pre },
            ),
            Err(e) => Err(e),
        }
    } else {
        Err(RVException::IllegalInstruction(i))
    }
}

/// The single-precision instructions whose results are pure functions of the
/// operand bit patterns: sign injection, min/max, the comparisons,
/// classification and the two register moves. The arithmetic and conversion
/// encodings of the extension depend on host floating-point hardware, which
/// this core does not model; they are rejected as illegal.
pub open spec fn spec_step_fp(pre: CpuView, i: u32) -> Result<CpuView, RVException> {
    let pc4 = u64_specs::wrapping_add(pre.pc, 4);
    let fa = pre.fregs[s_rs1(i) as int];
    let fb = pre.fregs[s_rs2(i) as int];
    let f3 = s_funct3(i);
    match s_funct7(i) {
        0x10u32 => match f3 {
            0u32 => Ok(upd_frd(pre, i, sem_fsgnj(fa, fb), pc4)),
            1u32 => Ok(upd_frd(pre, i, sem_fsgnjn(fa, fb), pc4)),
            2u32 => Ok(upd_frd(pre, i, sem_fsgnjx(fa, fb), pc4)),
            _ => Err(RVException::IllegalInstruction(i)),
        },
        0x14u32 => match f3 {
            0u32 => Ok(upd_frd(pre, i, sem_fmin(fa, fb), pc4)),
            1u32 => Ok(upd_frd(pre, i, sem_fmax(fa, fb), pc4)),
            _ => Err(RVException::IllegalInstruction(i)),
        },
        0x50u32 => match f3 {
            0u32 => Ok(upd_rd(pre, i, sem_fle(fa, fb), pc4)),
            1u32 => Ok(upd_rd(pre, i, sem_flt(fa, fb), pc4)),
            2u32 => Ok(upd_rd(pre, i, sem_feq(fa, fb), pc4)),
            _ => Err(RVException::IllegalInstruction(i)),
        },
        0x70u32 => {
            if s_rs2(i) == 0 && f3 == 0 {
                Ok(upd_rd(pre, i, sext32(fa as u64), pc4))
            } else if s_rs2(i) == 0 && f3 == 1 {
                Ok(upd_rd(pre, i, sem_fclass(fa), pc4))
            } else {
                Err(RVException::IllegalInstruction(i))
            }
        },
        0x78u32 => {
            if s_rs2(i) == 0 && f3 == 0 {
                Ok(upd_frd(pre, i, pre.xregs[s_rs1(i) as int] as u32, pc4))
            } else {
                Err(RVException::IllegalInstruction(i))
            }
        },
        _ => Err(RVException::IllegalInstruction(i)),
    }
}

/// `ECALL`, `EBREAK` and the Zicsr read-modify-write instructions. CSR reads
/// observe the pre-modification value; a write of the read value into
/// `x[0]` is discarded on retirement.
pub open spec fn spec_step_system(pre: CpuView, i: u32) -> Result<CpuView, RVException> {
    let pc4 = u64_specs::wrapping_add(pre.pc, 4);
    let a = pre.xregs[s_rs1(i) as int];
    let zimm = s_rs1(i) as u64;
    let c = s_csr(i) as int;
    let old_v = pre.csrs[c];
    match s_funct3(i) {
        0u32 => {
            if s_rs2(i) == 0 && s_funct7(i) == 0 {
                Err(RVException::EnvironmentCall)
            } else if s_rs2(i) == 1 && s_funct7(i) == 0 {
                Err(RVException::Breakpoint)
            } else {
                Err(RVException::IllegalInstruction(i))
            }
        },
        1u32 => Ok(
            CpuView {
                xregs: pre.xregs.update(s_rd(i) as int, old_v),
                csrs: pre.csrs.update(c, a),
                pc: pc4,
                ..pre
            },
        ),
        2u32 => Ok(
            CpuView {
                xregs: pre.xregs.update(s_rd(i) as int, old_v),
                csrs: pre.csrs.update(c, old_v | a),
                pc: pc4,
                ..pre
            },
        ),
        3u32 => Ok(
            CpuView {
                xregs: pre.xregs.update(s_rd(i) as int, old_v),
                csrs: pre.csrs.update(c, old_v & !a),
                pc: pc4,
                ..pre
            },
        ),
        5u32 => Ok(
            CpuView {
                xregs: pre.xregs.update(s_rd(i) as int, old_v),
                csrs: pre.csrs.update(c, zimm),
                pc: pc4,
                ..pre
            },
        ),
        6u32 => Ok(
            CpuView {
                xregs: pre.xregs.update(s_rd(i) as int, old_v),
                csrs: pre.csrs.update(c, old_v | zimm),
                pc: pc4,
                ..pre
            },
        ),
        7u32 => Ok(
            CpuView {
                xregs: pre.xregs.update(s_rd(i) as int, old_v),
                csrs: pre.csrs.update(c, old_v & !zimm),
                pc: pc4,
                ..pre
            },
        ),
        _ => Err(RVException::IllegalInstruction(i)),
    }
}

/// One decoded-and-executed instruction, before retirement bookkeeping: the
/// machine after the instruction, or the exception it raised.
pub open spec fn spec_step(pre: CpuView, i: u32) -> Result<CpuView, RVException> {
    match s_opcode(i) {
        0x37u32 => spec_step_upper_and_jumps(pre, i),
        0x17u32 => spec_step_upper_and_jumps(pre, i),
        0x6Fu32 => spec_step_upper_and_jumps(pre, i),
        0x67u32 => spec_step_upper_and_jumps(pre, i),
        0x63u32 => spec_step_branch(pre, i),
        0x03u32 => spec_step_load(pre, i),
        0x23u32 => spec_step_store(pre, i),
        0x13u32 => spec_step_imm(pre, i),
        0x1Bu32 => spec_step_imm32(pre, i),
        0x33u32 => spec_step_op(pre, i),
        0x3Bu32 => spec_step_op32(pre, i),
        0x0Fu32 => spec_step_fence(pre, i),
        0x2Fu32 => spec_step_amo(pre, i),
        0x73u32 => spec_step_system(pre, i),
        0x07u32 => spec_step_flw(pre, i),
        0x27u32 => spec_step_fsw(pre, i),
        0x53u32 => spec_step_fp(pre, i),
        _ => Err(RVException::IllegalInstruction(i)),
    }
}

/// Retirement bookkeeping: `x[0]` reads as zero again and the `cycle` CSR
/// advances by exactly one.
pub open spec fn spec_retire(v: CpuView) -> CpuView {
    CpuView {
        xregs: v.xregs.update(0, 0),
        csrs: v.csrs.update(
            CSR_CYCLE as int,
            u64_specs::wrapping_add(v.csrs[CSR_CYCLE as int], 1),
        ),
        ..v
    }
}

/// Instruction fetch: a 32-bit bus read at the program counter.
pub open spec fn spec_fetch(v: CpuView) -> Result<u32, RVException> {
    match spec_bus_read(v.rom, v.ram, v.pc, Width::Word) {
        Ok(w) => Ok(w as u32),
        Err(e) => Err(e),
    }
}

/// One full cycle: fetch, execute, retire. An exception anywhere leaves the
/// machine exactly as it was.
pub open spec fn spec_cycle(v: CpuView) -> Result<CpuView, RVException> {
    match spec_fetch(v) {
        Ok(w) => match spec_step(v, w) {
            Ok(p) => Ok(spec_retire(p)),
            Err(e) => Err(e),
        },
        Err(e) => Err(e),
    }
}

/// A zero-filled word vector of the given length.
pub fn zeroed_words(size: usize) -> (r: Vec<u64>)
    ensures
        r@.len() == size,
        forall|j: int| 0 <= j < size ==> r@[j] == 0u64,
{
    let mut v: Vec<u64> = Vec::new();
    let mut k: usize = 0;
    while k < size
        invariant
            k <= size,
            v@.len() == k,
            forall|j: int| 0 <= j < k ==> v@[j] == 0u64,
        decreases size - k,
    {
        v.push(0);
        k = k + 1;
    }
    v
}

/// Linear scan for a reserved address.
fn vec_contains(v: &Vec<u64>, a: u64) -> (r: bool)
    ensures
        r == v@.contains(a),
{
    let n = v.len();
    let mut k: usize = 0;
    while k < n
        invariant
            k <= n,
            n == v@.len(),
            forall|j: int| 0 <= j < k ==> v@[j] != a,
        decreases n - k,
    {
        if v[k] == a {
            return true;
        }
        k = k + 1;
    }
    proof {
        assert(!v@.contains(a));
    }
    false
}

/// Remove every entry for `a` from the reservation set.
fn vec_remove_all(v: &mut Vec<u64>, a: u64)
    ensures
        final (v)@ == without(old(v)@, a),
{
    let mut out: Vec<u64> = Vec::new();
    let n = v.len();
    let mut k: usize = 0;
    proof {
        reveal(Seq::filter);
        assert(without(old(v)@.take(0), a) =~= Seq::<u64>::empty());
    }
    while k < n
        invariant
            k <= n,
            n == v@.len(),
            v@ == old(v)@,
            out@ == without(v@.take(k as int), a),
        decreases n - k,
    {
        let x = v[k];
        proof {
            reveal(Seq::filter);
            let s = v@.take(k as int);
            let s2 = v@.take(k as int + 1);
            assert(s2.drop_last() =~= s);
            assert(s2.last() == v@[k as int]);
            if v@[k as int] != a {
                assert(without(s2, a) =~= without(s, a).push(v@[k as int]));
            } else {
                assert(without(s2, a) =~= without(s, a));
            }
        }
        if x != a {
            out.push(x);
        }
        k = k + 1;
    }
    proof {
        assert(v@.take(n as int) =~= v@);
    }
    *v = out;
}

/// Add `a` to the reservation set unless it is already there.
fn vec_insert_unique(v: &mut Vec<u64>, a: u64)
    ensures
        final (v)@ == with_res(old(v)@, a),
{
    if !vec_contains(v, a) {
        v.push(a);
    }
}

/// A zero-filled vector of float-register bit patterns.
pub fn zeroed_fregs(size: usize) -> (r: Vec<u32>)
    ensures
        r@.len() == size,
        forall|j: int| 0 <= j < size ==> r@[j] == 0u32,
{
    let mut v: Vec<u32> = Vec::new();
    let mut k: usize = 0;
    while k < size
        invariant
            k <= size,
            v@.len() == k,
            forall|j: int| 0 <= j < k ==> v@[j] == 0u32,
        decreases size - k,
    {
        v.push(0);
        k = k + 1;
    }
    v
}

/// The processor: architectural registers and the bus it owns. The view is
/// a [`CpuView`].
pub struct CPU {
    pub xregs: Vec<u64>,
    pub fregs: Vec<u32>,
    pub bus: Bus,
    pub pc: u64,
    pub csrs: Vec<u64>,
    pub reservations: Vec<u64>,
}

impl View for CPU {
    type V = CpuView;

    open spec fn view(&self) -> CpuView {
        CpuView {
            xregs: self.xregs@,
            fregs: self.fregs@,
            pc: self.pc,
            csrs: self.csrs@,
            reservations: self.reservations@,
            rom: self.bus.rom@,
            ram: self.bus.ram@,
        }
    }
}

impl CPU {
    /// Well-formedness: full register and CSR files.
    pub open spec fn wf(&self) -> bool {
        view_wf(self@)
    }

    /// A fresh core over `bus`: every register zero except the stack pointer
    /// `x[2]`, which points just past the top of RAM; the program counter at
    /// zero; no CSR set; no reservation held.
    pub fn new(bus: Bus) -> (r: Self)
        requires
            RAM_BASE + bus.ram@.len() <= u64::MAX,
        ensures
            r.wf(),
            r.pc == 0,
            r@.rom == bus.rom@,
            r@.ram == bus.ram@,
            r@.reservations.len() == 0,
            forall|j: int| 0 <= j < 4096 ==> r@.csrs[j] == 0u64,
            r@.xregs[2] == RAM_BASE + bus.ram@.len(),
            forall|j: int| 0 <= j < 32 && j != 2 ==> r@.xregs[j] == 0u64,
            forall|j: int| 0 <= j < 32 ==> r@.fregs[j] == 0u32,
    {
        let mut xregs = zeroed_words(32);
        let sp = RAM_BASE + bus.ram.size() as u64;
        xregs.set(2, sp);
        CPU {
            xregs,
            fregs: zeroed_fregs(32),
            bus,
            pc: 0,
            csrs: zeroed_words(4096),
            reservations: Vec::new(),
        }
    }

    /// Instruction fetch: a 32-bit read at the program counter.
    fn fetch(&self) -> (r: Result<u32, RVException>)
        ensures
            r == spec_fetch(self@),
    {
        match self.bus.read(self.pc, Width::Word) {
            Ok(w) => Ok(w as u32),
            Err(e) => Err(e),
        }
    }

    /// Advance the wall-clock CSR by one; the driver calls this when at
    /// least a second has elapsed since the previous increment.
    pub fn tick_time(&mut self)
        requires
            old(self).wf(),
        ensures
            final (self).wf(),
            final (self)@ == (CpuView {
                csrs: old(self)@.csrs.update(
                    CSR_TIME as int,
                    u64_specs::wrapping_add(old(self)@.csrs[CSR_TIME as int], 1),
                ),
                ..old(self)@
            }),
    {
        let t = self.csrs[CSR_TIME];
        self.csrs.set(CSR_TIME, t.wrapping_add(1));
    }

    fn exec_upper_and_jumps(&mut self, i: u32) -> (r: Result<(), RVException>)
        requires
            old(self).wf(),
            s_opcode(i) == 0x37 || s_opcode(i) == 0x17 || s_opcode(i) == 0x6F || s_opcode(i)
                == 0x67,
        ensures
            final (self).wf(),
            match spec_step_upper_and_jumps(old(self)@, i) {
                Ok(p) => r == Ok::<(), RVException>(()) && final (self)@ == p,
                Err(e) => r == Err::<(), RVException>(e) && final (self)@ == old(self)@,
            },
    {
        let pc4 = self.pc.wrapping_add(4);
        let d = rd(i);
        let op = opcode(i);
        if op == 0x37 {
            self.xregs.set(d, imm_u(i));
            self.pc = pc4;
        } else if op == 0x17 {
            let v = self.pc.wrapping_add(imm_u(i));
            self.xregs.set(d, v);
            self.pc = pc4;
        } else if op == 0x6F {
            let target = self.pc.wrapping_add(imm_j(i));
            self.xregs.set(d, pc4);
            self.pc = target;
        } else {
            let a = self.xregs[rs1(i)];
            let target = a.wrapping_add(imm_i(i)) & 0xFFFF_FFFF_FFFF_FFFE;
            self.xregs.set(d, pc4);
            self.pc = target;
        }
        Ok(())
    }

    fn exec_branch(&mut self, i: u32) -> (r: Result<(), RVException>)
        requires
            old(self).wf(),
        ensures
            final (self).wf(),
            match spec_step_branch(old(self)@, i) {
                Ok(p) => r == Ok::<(), RVException>(()) && final (self)@ == p,
                Err(e) => r == Err::<(), RVException>(e) && final (self)@ == old(self)@,
            },
    {
        let pc4 = self.pc.wrapping_add(4);
        let a = self.xregs[rs1(i)];
        let b = self.xregs[rs2(i)];
        match branch_taken_exec(funct3(i), a, b) {
            Some(t) => {
                if t {
                    self.pc = self.pc.wrapping_add(imm_b(i));
                } else {
                    self.pc = pc4;
                }
                Ok(())
            },
            None => Err(RVException::IllegalInstruction(i)),
        }
    }

    fn exec_load(&mut self, i: u32) -> (r: Result<(), RVException>)
        requires
            old(self).wf(),
        ensures
            final (self).wf(),
            match spec_step_load(old(self)@, i) {
                Ok(p) => r == Ok::<(), RVException>(()) && final (self)@ == p,
                Err(e) => r == Err::<(), RVException>(e) && final (self)@ == old(self)@,
            },
    {
        let pc4 = self.pc.wrapping_add(4);
        let d = rd(i);
        let addr = self.xregs[rs1(i)].wrapping_add(imm_i(i));
        let f3 = funct3(i);
        if f3 == 0 {
            match self.bus.read(addr, Width::Byte) {
                Ok(v) => {
                    let x = sext8_exec(v);
                    self.xregs.set(d, x);
                    self.pc = pc4;
                    Ok(())
                },
                Err(e) => Err(e),
            }
        } else if f3 == 1 {
            match self.bus.read(addr, Width::Half) {
                Ok(v) => {
                    let x = sext16_exec(v);
                    self.xregs.set(d, x);
                    self.pc = pc4;
                    Ok(())
                },
                Err(e) => Err(e),
            }
        } else if f3 == 2 {
            match self.bus.read(addr, Width::Word) {
                Ok(v) => {
                    let x = sext32_exec(v);
                    self.xregs.set(d, x);
                    self.pc = pc4;
                    Ok(())
                },
                Err(e) => Err(e),
            }
        } else if f3 == 3 {
            match self.bus.read(addr, Width::Double) {
                Ok(v) => {
                    self.xregs.set(d, v);
                    self.pc = pc4;
                    Ok(())
                },
                Err(e) => Err(e),
            }
        } else if f3 == 4 {
            match self.bus.read(addr, Width::Byte) {
                Ok(v) => {
                    self.xregs.set(d, v);
                    self.pc = pc4;
                    Ok(())
                },
                Err(e) => Err(e),
            }
        } else if f3 == 5 {
            match self.bus.read(addr, Width::Half) {
                Ok(v) => {
                    self.xregs.set(d, v);
                    self.pc = pc4;
                    Ok(())
                },
                Err(e) => Err(e),
            }
        } else if f3 == 6 {
            match self.bus.read(addr, Width::Word) {
                Ok(v) => {
                    self.xregs.set(d, v);
                    self.pc = pc4;
                    Ok(())
                },
                Err(e) => Err(e),
            }
        } else {
            Err(RVException::IllegalInstruction(i))
        }
    }

    fn exec_store(&mut self, i: u32) -> (r: Result<(), RVException>)
        requires
            old(self).wf(),
        ensures
            final (self).wf(),
            match spec_step_store(old(self)@, i) {
                Ok(p) => r == Ok::<(), RVException>(()) && final (self)@ == p,
                Err(e) => r == Err::<(), RVException>(e) && final (self)@ == old(self)@,
            },
    {
        let pc4 = self.pc.wrapping_add(4);
        let addr = self.xregs[rs1(i)].wrapping_add(imm_s(i));
        let b = self.xregs[rs2(i)];
        let f3 = funct3(i);
        let wopt = if f3 == 0 {
            Some(Width::Byte)
        } else if f3 == 1 {
            Some(Width::Half)
        } else if f3 == 2 {
            Some(Width::Word)
        } else if f3 == 3 {
            Some(Width::Double)
        } else {
            None
        };
        match wopt {
            Some(w) => match self.bus.write(addr, w, b) {
                Ok(()) => {
                    vec_remove_all(&mut self.reservations, addr);
                    self.pc = pc4;
                    Ok(())
                },
                Err(e) => Err(e),
            },
            None => Err(RVException::IllegalInstruction(i)),
        }
    }

    fn exec_imm(&mut self, i: u32) -> (r: Result<(), RVException>)
        requires
            old(self).wf(),
        ensures
            final (self).wf(),
            match spec_step_imm(old(self)@, i) {
                Ok(p) => r == Ok::<(), RVException>(()) && final (self)@ == p,
                Err(e) => r == Err::<(), RVException>(e) && final (self)@ == old(self)@,
            },
    {
        let pc4 = self.pc.wrapping_add(4);
        let d = rd(i);
        let a = self.xregs[rs1(i)];
        let imm = imm_i(i);
        let f3 = funct3(i);
        if f3 == 0 {
            self.xregs.set(d, a.wrapping_add(imm));
            self.pc = pc4;
            Ok(())
        } else if f3 == 1 {
            let v = a << (shamt6(i) as u64);
            self.xregs.set(d, v);
            self.pc = pc4;
            Ok(())
        } else if f3 == 2 {
            let v: u64 = if (a as i64) < (imm as i64) {
                1
            } else {
                0
            };
            self.xregs.set(d, v);
            self.pc = pc4;
            Ok(())
        } else if f3 == 3 {
            let v: u64 = if a < imm {
                1
            } else {
                0
            };
            self.xregs.set(d, v);
            self.pc = pc4;
            Ok(())
        } else if f3 == 4 {
            self.xregs.set(d, a ^ imm);
            self.pc = pc4;
            Ok(())
        } else if f3 == 5 {
            let f6 = funct7(i) >> 1;
            if f6 == 0 {
                let v = a >> (shamt6(i) as u64);
                self.xregs.set(d, v);
                self.pc = pc4;
                Ok(())
            } else if f6 == 0x10 {
                let v = ((a as i64) >> (shamt6(i) as u64)) as u64;
                self.xregs.set(d, v);
                self.pc = pc4;
                Ok(())
            } else {
                Err(RVException::IllegalInstruction(i))
            }
        } else if f3 == 6 {
            self.xregs.set(d, a | imm);
            self.pc = pc4;
            Ok(())
        } else {
            self.xregs.set(d, a & imm);
            self.pc = pc4;
            Ok(())
        }
    }

    fn exec_imm32(&mut self, i: u32) -> (r: Result<(), RVException>)
        requires
            old(self).wf(),
        ensures
            final (self).wf(),
            match spec_step_imm32(old(self)@, i) {
                Ok(p) => r == Ok::<(), RVException>(()) && final (self)@ == p,
                Err(e) => r == Err::<(), RVException>(e) && final (self)@ == old(self)@,
            },
    {
        let pc4 = self.pc.wrapping_add(4);
        let d = rd(i);
        let a = self.xregs[rs1(i)];
        let sh = shamt5(i);
        let f3 = funct3(i);
        if f3 == 0 {
            let v = sext32_exec(a.wrapping_add(imm_i(i)));
            self.xregs.set(d, v);
            self.pc = pc4;
            Ok(())
        } else if f3 == 1 {
            let v = sext32_exec(((a as u32) << sh) as u64);
            self.xregs.set(d, v);
            self.pc = pc4;
            Ok(())
        } else if f3 == 5 {
            let f7 = funct7(i);
            if f7 == 0 {
                let v = sext32_exec(((a as u32) >> sh) as u64);
                self.xregs.set(d, v);
                self.pc = pc4;
                Ok(())
            } else if f7 == 0x20 {
                let v = sext32_exec((((a as i32) >> sh) as u32) as u64);
                self.xregs.set(d, v);
                self.pc = pc4;
                Ok(())
            } else {
                Err(RVException::IllegalInstruction(i))
            }
        } else {
            Err(RVException::IllegalInstruction(i))
        }
    }

    fn exec_op(&mut self, i: u32) -> (r: Result<(), RVException>)
        requires
            old(self).wf(),
        ensures
            final (self).wf(),
            match spec_step_op(old(self)@, i) {
                Ok(p) => r == Ok::<(), RVException>(()) && final (self)@ == p,
                Err(e) => r == Err::<(), RVException>(e) && final (self)@ == old(self)@,
            },
    {
        let pc4 = self.pc.wrapping_add(4);
        let d = rd(i);
        let a = self.xregs[rs1(i)];
        let b = self.xregs[rs2(i)];
        let f3 = funct3(i);
        let f7 = funct7(i);
        if f7 == 0 {
            let v: u64 = if f3 == 0 {
                a.wrapping_add(b)
            } else if f3 == 1 {
                proof {
                    lemma_shift_mask(b);
                }
                a << (b & 0x3F)
            } else if f3 == 2 {
                if (a as i64) < (b as i64) {
                    1
                } else {
                    0
                }
            } else if f3 == 3 {
                if a < b {
                    1
                } else {
                    0
                }
            } else if f3 == 4 {
                a ^ b
            } else if f3 == 5 {
                proof {
                    lemma_shift_mask(b);
                }
                a >> (b & 0x3F)
            } else if f3 == 6 {
                a | b
            } else {
                a & b
            };
            self.xregs.set(d, v);
            self.pc = pc4;
            Ok(())
        } else if f7 == 0x20 {
            if f3 == 0 {
                self.xregs.set(d, a.wrapping_sub(b));
                self.pc = pc4;
                Ok(())
            } else if f3 == 5 {
                proof {
                    lemma_shift_mask(b);
                }
                let v = ((a as i64) >> (b & 0x3F)) as u64;
                self.xregs.set(d, v);
                self.pc = pc4;
                Ok(())
            } else {
                Err(RVException::IllegalInstruction(i))
            }
        } else if f7 == 1 {
            if f3 == 0 {
                self.xregs.set(d, a.wrapping_mul(b));
                self.pc = pc4;
                Ok(())
            } else if f3 == 1 {
                let v = mulh_exec(a, b);
                self.xregs.set(d, v);
                self.pc = pc4;
                Ok(())
            } else if f3 == 2 {
                let v = mulhsu_exec(a, b);
                self.xregs.set(d, v);
                self.pc = pc4;
                Ok(())
            } else if f3 == 3 {
                let v = mulhu_exec(a, b);
                self.xregs.set(d, v);
                self.pc = pc4;
                Ok(())
            } else if f3 == 4 {
                let v = div_exec(a, b);
                self.set_dz_on_zero(b);
                self.xregs.set(d, v);
                self.pc = pc4;
                Ok(())
            } else if f3 == 5 {
                let v = divu_exec(a, b);
                self.set_dz_on_zero(b);
                self.xregs.set(d, v);
                self.pc = pc4;
                Ok(())
            } else if f3 == 6 {
                let v = rem_exec(a, b);
                self.xregs.set(d, v);
                self.pc = pc4;
                Ok(())
            } else {
                let v = remu_exec(a, b);
                self.xregs.set(d, v);
                self.pc = pc4;
                Ok(())
            }
        } else {
            Err(RVException::IllegalInstruction(i))
        }
    }

    /// Set the DZ flag in `fcsr` when the divisor was zero.
    fn set_dz_on_zero(&mut self, b: u64)
        requires
            old(self).wf(),
        ensures
            final (self).wf(),
            final (self)@ == (CpuView { csrs: csrs_after_div(old(self)@, b), ..old(self)@ }),
    {
        if b == 0 {
            let f = self.csrs[CSR_FCSR];
            self.csrs.set(CSR_FCSR, f | FCSR_DZ);
        }
    }

    fn exec_op32(&mut self, i: u32) -> (r: Result<(), RVException>)
        requires
            old(self).wf(),
        ensures
            final (self).wf(),
            match spec_step_op32(old(self)@, i) {
                Ok(p) => r == Ok::<(), RVException>(()) && final (self)@ == p,
                Err(e) => r == Err::<(), RVException>(e) && final (self)@ == old(self)@,
            },
    {
        let pc4 = self.pc.wrapping_add(4);
        let d = rd(i);
        let a = self.xregs[rs1(i)];
        let b = self.xregs[rs2(i)];
        let f3 = funct3(i);
        let f7 = funct7(i);
        if f7 == 0 {
            if f3 == 0 {
                let v = sext32_exec(a.wrapping_add(b));
                self.xregs.set(d, v);
                self.pc = pc4;
                Ok(())
            } else if f3 == 1 {
                proof {
                    lemma_shift_mask(b);
                }
                let v = sext32_exec(((a as u32) << ((b & 0x1F) as u32)) as u64);
                self.xregs.set(d, v);
                self.pc = pc4;
                Ok(())
            } else if f3 == 5 {
                proof {
                    lemma_shift_mask(b);
                }
                let v = sext32_exec(((a as u32) >> ((b & 0x1F) as u32)) as u64);
                self.xregs.set(d, v);
                self.pc = pc4;
                Ok(())
            } else {
                Err(RVException::IllegalInstruction(i))
            }
        } else if f7 == 0x20 {
            if f3 == 0 {
                let v = sext32_exec(a.wrapping_sub(b));
                self.xregs.set(d, v);
                self.pc = pc4;
                Ok(())
            } else if f3 == 5 {
                proof {
                    lemma_shift_mask(b);
                }
                let v = sext32_exec((((a as i32) >> ((b & 0x1F) as u32)) as u32) as u64);
                self.xregs.set(d, v);
                self.pc = pc4;
                Ok(())
            } else {
                Err(RVException::IllegalInstruction(i))
            }
        } else if f7 == 1 {
            if f3 == 0 {
                let v = sext32_exec((a as u32).wrapping_mul(b as u32) as u64);
                self.xregs.set(d, v);
                self.pc = pc4;
                Ok(())
            } else if f3 == 4 {
                let v = divw_exec(a, b);
                self.set_dz_on_zero((b as u32) as u64);
                self.xregs.set(d, v);
                self.pc = pc4;
                Ok(())
            } else if f3 == 5 {
                let v = divuw_exec(a, b);
                self.set_dz_on_zero((b as u32) as u64);
                self.xregs.set(d, v);
                self.pc = pc4;
                Ok(())
            } else if f3 == 6 {
                let v = remw_exec(a, b);
                self.xregs.set(d, v);
                self.pc = pc4;
                Ok(())
            } else if f3 == 7 {
                let v = remuw_exec(a, b);
                self.xregs.set(d, v);
                self.pc = pc4;
                Ok(())
            } else {
                Err(RVException::IllegalInstruction(i))
            }
        } else {
            Err(RVException::IllegalInstruction(i))
        }
    }

    fn exec_fence(&mut self, i: u32) -> (r: Result<(), RVException>)
        requires
            old(self).wf(),
        ensures
            final (self).wf(),
            match spec_step_fence(old(self)@, i) {
                Ok(p) => r == Ok::<(), RVException>(()) && final (self)@ == p,
                Err(e) => r == Err::<(), RVException>(e) && final (self)@ == old(self)@,
            },
    {
        let f3 = funct3(i);
        if f3 == 0 || f3 == 1 {
            self.pc = self.pc.wrapping_add(4);
            Ok(())
        } else {
            Err(RVException::IllegalInstruction(i))
        }
    }

    fn exec_amo(&mut self, i: u32) -> (r: Result<(), RVException>)
        requires
            old(self).wf(),
        ensures
            final (self).wf(),
            match spec_step_amo(old(self)@, i) {
                Ok(p) => r == Ok::<(), RVException>(()) && final (self)@ == p,
                Err(e) => r == Err::<(), RVException>(e) && final (self)@ == old(self)@,
            },
    {
        let pc4 = self.pc.wrapping_add(4);
        let f3 = funct3(i);
        if f3 != 2 && f3 != 3 {
            return Err(RVException::IllegalInstruction(i));
        }
        let w = if f3 == 2 {
            Width::Word
        } else {
            Width::Double
        };
        let align: u64 = if f3 == 2 {
            4
        } else {
            8
        };
        let d = rd(i);
        let addr = self.xregs[rs1(i)];
        let src = self.xregs[rs2(i)];
        if addr % align != 0 {
            return Err(RVException::LoadAddressMisaligned);
        }
        let f5 = funct7(i) >> 2;
        if f5 == 0x02 {
            match self.bus.read(addr, w) {
                Ok(v) => {
                    let vv = if f3 == 2 {
                        sext32_exec(v)
                    } else {
                        v
                    };
                    self.xregs.set(d, vv);
                    vec_insert_unique(&mut self.reservations, addr);
                    self.pc = pc4;
                    Ok(())
                },
                Err(e) => Err(e),
            }
        } else if f5 == 0x03 {
            if vec_contains(&self.reservations, addr) {
                match self.bus.write(addr, w, src) {
                    Ok(()) => {
                        self.xregs.set(d, 0);
                        vec_remove_all(&mut self.reservations, addr);
                        self.pc = pc4;
                        Ok(())
                    },
                    Err(e) => Err(e),
                }
            } else {
                self.xregs.set(d, 1);
                vec_remove_all(&mut self.reservations, addr);
                self.pc = pc4;
                Ok(())
            }
        } else {
            match amo_result_exec(f5, 0, 0, w) {
                None => Err(RVException::IllegalInstruction(i)),
                Some(_) => match self.bus.read(addr, w) {
                    Ok(v) => {
                        proof {
                            assert(amo_result(f5, v, src, w) is Some);
                        }
                        let nv = match amo_result_exec(f5, v, src, w) {
                            Some(x) => x,
                            None => 0,
                        };
                        match self.bus.write(addr, w, nv) {
                            Ok(()) => {
                                let ov = if f3 == 2 {
                                    sext32_exec(v)
                                } else {
                                    v
                                };
                                self.xregs.set(d, ov);
                                vec_remove_all(&mut self.reservations, addr);
                                self.pc = pc4;
                                Ok(())
                            },
                            Err(e) => Err(e),
                        }
                    },
                    Err(e) => Err(e),
                },
            }
        }
    }

    fn exec_system(&mut self, i: u32) -> (r: Result<(), RVException>)
        requires
            old(self).wf(),
        ensures
            final (self).wf(),
            match spec_step_system(old(self)@, i) {
                Ok(p) => r == Ok::<(), RVException>(()) && final (self)@ == p,
                Err(e) => r == Err::<(), RVException>(e) && final (self)@ == old(self)@,
            },
    {
        let pc4 = self.pc.wrapping_add(4);
        let d = rd(i);
        let a = self.xregs[rs1(i)];
        let zimm = rs1(i) as u64;
        let c = csr_address(i);
        let f3 = funct3(i);
        if f3 == 0 {
            if rs2(i) == 0 && funct7(i) == 0 {
                Err(RVException::EnvironmentCall)
            } else if rs2(i) == 1 && funct7(i) == 0 {
                Err(RVException::Breakpoint)
            } else {
                Err(RVException::IllegalInstruction(i))
            }
        } else if f3 == 1 {
            let old_v = self.csrs[c];
            self.csrs.set(c, a);
            self.xregs.set(d, old_v);
            self.pc = pc4;
            Ok(())
        } else if f3 == 2 {
            let old_v = self.csrs[c];
            self.csrs.set(c, old_v | a);
            self.xregs.set(d, old_v);
            self.pc = pc4;
            Ok(())
        } else if f3 == 3 {
            let old_v = self.csrs[c];
            self.csrs.set(c, old_v & !a);
            self.xregs.set(d, old_v);
            self.pc = pc4;
            Ok(())
        } else if f3 == 5 {
            let old_v = self.csrs[c];
            self.csrs.set(c, zimm);
            self.xregs.set(d, old_v);
            self.pc = pc4;
            Ok(())
        } else if f3 == 6 {
            let old_v = self.csrs[c];
            self.csrs.set(c, old_v | zimm);
            self.xregs.set(d, old_v);
            self.pc = pc4;
            Ok(())
        } else if f3 == 7 {
            let old_v = self.csrs[c];
            self.csrs.set(c, old_v & !zimm);
            self.xregs.set(d, old_v);
            self.pc = pc4;
            Ok(())
        } else {
            Err(RVException::IllegalInstruction(i))
        }
    }

    fn exec_flw(&mut self, i: u32) -> (r: Result<(), RVException>)
        requires
            old(self).wf(),
        ensures
            final (self).wf(),
            match spec_step_flw(old(self)@, i) {
                Ok(p) => r == Ok::<(), RVException>(()) && final (self)@ == p,
                Err(e) => r == Err::<(), RVException>(e) && final (self)@ == old(self)@,
            },
    {
        let pc4 = self.pc.wrapping_add(4);
        let addr = self.xregs[rs1(i)].wrapping_add(imm_i(i));
        if funct3(i) == 2 {
            match self.bus.read(addr, Width::Word) {
                Ok(v) => {
                    self.fregs.set(rd(i), v as u32);
                    self.pc = pc4;
                    Ok(())
                },
                Err(e) => Err(e),
            }
        } else {
            Err(RVException::IllegalInstruction(i))
        }
    }

    fn exec_fsw(&mut self, i: u32) -> (r: Result<(), RVException>)
        requires
            old(self).wf(),
        ensures
            final (self).wf(),
            match spec_step_fsw(old(self)@, i) {
                Ok(p) => r == Ok::<(), RVException>(()) && final (self)@ == p,
                Err(e) => r == Err::<(), RVException>(e) && final (self)@ == old(self)@,
            },
    {
        let pc4 = self.pc.wrapping_add(4);
        let addr = self.xregs[rs1(i)].wrapping_add(imm_s(i));
        if funct3(i) == 2 {
            let v = self.fregs[rs2(i)] as u64;
            match self.bus.write(addr, Width::Word, v) {
                Ok(()) => {
                    vec_remove_all(&mut self.reservations, addr);
                    self.pc = pc4;
                    Ok(())
                },
                Err(e) => Err(e),
            }
        } else {
            Err(RVException::IllegalInstruction(i))
        }
    }

    fn exec_fp(&mut self, i: u32) -> (r: Result<(), RVException>)
        requires
            old(self).wf(),
        ensures
            final (self).wf(),
            match spec_step_fp(old(self)@, i) {
                Ok(p) => r == Ok::<(), RVException>(()) && final (self)@ == p,
                Err(e) => r == Err::<(), RVException>(e) && final (self)@ == old(self)@,
            },
    {
        let pc4 = self.pc.wrapping_add(4);
        let d = rd(i);
        let fa = self.fregs[rs1(i)];
        let fb = self.fregs[rs2(i)];
        let f3 = funct3(i);
        let f7 = funct7(i);
        if f7 == 0x10 {
            if f3 == 0 {
                let v = fsgnj_exec(fa, fb);
                self.fregs.set(d, v);
                self.pc = pc4;
                Ok(())
            } else if f3 == 1 {
                let v = fsgnjn_exec(fa, fb);
                self.fregs.set(d, v);
                self.pc = pc4;
                Ok(())
            } else if f3 == 2 {
                let v = fsgnjx_exec(fa, fb);
                self.fregs.set(d, v);
                self.pc = pc4;
                Ok(())
            } else {
                Err(RVException::IllegalInstruction(i))
            }
        } else if f7 == 0x14 {
            if f3 == 0 {
                let v = fmin_exec(fa, fb);
                self.fregs.set(d, v);
                self.pc = pc4;
                Ok(())
            } else if f3 == 1 {
                let v = fmax_exec(fa, fb);
                self.fregs.set(d, v);
                self.pc = pc4;
                Ok(())
            } else {
                Err(RVException::IllegalInstruction(i))
            }
        } else if f7 == 0x50 {
            if f3 == 0 {
                let v = fle_exec(fa, fb);
                self.xregs.set(d, v);
                self.pc = pc4;
                Ok(())
            } else if f3 == 1 {
                let v = flt_exec(fa, fb);
                self.xregs.set(d, v);
                self.pc = pc4;
                Ok(())
            } else if f3 == 2 {
                let v = feq_exec(fa, fb);
                self.xregs.set(d, v);
                self.pc = pc4;
                Ok(())
            } else {
                Err(RVException::IllegalInstruction(i))
            }
        } else if f7 == 0x70 {
            if rs2(i) == 0 && f3 == 0 {
                let v = sext32_exec(fa as u64);
                self.xregs.set(d, v);
                self.pc = pc4;
                Ok(())
            } else if rs2(i) == 0 && f3 == 1 {
                let v = fclass_exec(fa);
                self.xregs.set(d, v);
                self.pc = pc4;
                Ok(())
            } else {
                Err(RVException::IllegalInstruction(i))
            }
        } else if f7 == 0x78 {
            if rs2(i) == 0 && f3 == 0 {
                let v = self.xregs[rs1(i)] as u32;
                self.fregs.set(d, v);
                self.pc = pc4;
                Ok(())
            } else {
                Err(RVException::IllegalInstruction(i))
            }
        } else {
            Err(RVException::IllegalInstruction(i))
        }
    }

    /// Decode and execute one instruction word against the current state.
    pub fn execute(&mut self, i: u32) -> (r: Result<(), RVException>)
        requires
            old(self).wf(),
        ensures
            final (self).wf(),
            match spec_step(old(self)@, i) {
                Ok(p) => r == Ok::<(), RVException>(()) && final (self)@ == p,
                Err(e) => r == Err::<(), RVException>(e) && final (self)@ == old(self)@,
            },
    {
        let op = opcode(i);
        if op == 0x37 || op == 0x17 || op == 0x6F || op == 0x67 {
            self.exec_upper_and_jumps(i)
        } else if op == 0x63 {
            self.exec_branch(i)
        } else if op == 0x03 {
            self.exec_load(i)
        } else if op == 0x23 {
            self.exec_store(i)
        } else if op == 0x13 {
            self.exec_imm(i)
        } else if op == 0x1B {
            self.exec_imm32(i)
        } else if op == 0x33 {
            self.exec_op(i)
        } else if op == 0x3B {
            self.exec_op32(i)
        } else if op == 0x0F {
            self.exec_fence(i)
        } else if op == 0x2F {
            self.exec_amo(i)
        } else if op == 0x73 {
            self.exec_system(i)
        } else if op == 0x07 {
            self.exec_flw(i)
        } else if op == 0x27 {
            self.exec_fsw(i)
        } else if op == 0x53 {
            self.exec_fp(i)
        } else {
            Err(RVException::IllegalInstruction(i))
        }
    }

    /// One full cycle: fetch the word at the program counter, execute it,
    /// and retire (hardwire `x[0]` to zero, advance the `cycle` CSR by one).
    /// A raised exception is surfaced with the machine left unchanged.
    pub fn fetch_and_execute(&mut self) -> (r: Result<(), RVException>)
        requires
            old(self).wf(),
        ensures
            final (self).wf(),
            match spec_cycle(old(self)@) {
                Ok(p) => r == Ok::<(), RVException>(()) && final (self)@ == p,
                Err(e) => r == Err::<(), RVException>(e) && final (self)@ == old(self)@,
            },
    {
        let w = match self.fetch() {
            Ok(w) => w,
            Err(e) => {
                return Err(e);
            },
        };
        match self.execute(w) {
            Ok(()) => {},
            Err(e) => {
                return Err(e);
            },
        }
        self.xregs.set(0, 0);
        let cyc = self.csrs[CSR_CYCLE];
        self.csrs.set(CSR_CYCLE, cyc.wrapping_add(1));
        Ok(())
    }
}

} // verus!
