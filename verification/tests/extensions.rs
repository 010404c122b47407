use risemu::bus::{Device, Width, RAM_BASE, ROM_BASE};
use risemu::rom::ROM;
use risemu::cpu::{CSR_TIME, CPU};
use risemu::emulator::{Emulator, RunStatus};
use risemu::exception::RVException;
use risemu::ram::RAM;

fn r_type(f7: u32, rs2: u32, rs1: u32, f3: u32, rd: u32, op: u32) -> u32 {
    (f7 << 25) | (rs2 << 20) | (rs1 << 15) | (f3 << 12) | (rd << 7) | op
}

fn i_type(imm: u32, rs1: u32, f3: u32, rd: u32, op: u32) -> u32 {
    ((imm & 0xFFF) << 20) | (rs1 << 15) | (f3 << 12) | (rd << 7) | op
}

fn amo(f5: u32, rs2: u32, rs1: u32, f3: u32, rd: u32) -> u32 {
    r_type(f5 << 2, rs2, rs1, f3, rd, 0x2F)
}

fn jal_enc(rd: u32, imm: i32) -> u32 {
    let u = imm as u32;
    (((u >> 20) & 1) << 31)
        | (((u >> 1) & 0x3FF) << 21)
        | (((u >> 11) & 1) << 20)
        | (((u >> 12) & 0xFF) << 12)
        | (rd << 7)
        | 0x6F
}

fn fresh() -> Emulator {
    let mut emu = Emulator::new(0x10000);
    emu.init_ram(vec![]);
    emu
}

fn alu(cpu: &mut CPU, word: u32, a: u64, b: u64) -> u64 {
    cpu.xregs[20] = a;
    cpu.xregs[21] = b;
    cpu.execute(word).unwrap();
    cpu.xregs[22]
}

#[test]
fn mul_family_values() {
    let mut emu = fresh();
    let cpu = &mut emu.cpu;
    let mul = r_type(1, 21, 20, 0b000, 22, 0x33);
    let mulh = r_type(1, 21, 20, 0b001, 22, 0x33);
    let mulhsu = r_type(1, 21, 20, 0b010, 22, 0x33);
    let mulhu = r_type(1, 21, 20, 0b011, 22, 0x33);
    assert_eq!(alu(cpu, mul, 7, 6), 42);
    assert_eq!(alu(cpu, mul, u64::MAX, 2), (-2i64) as u64); // low word wraps
    assert_eq!(alu(cpu, mulh, (-1i64) as u64, (-1i64) as u64), 0);
    assert_eq!(alu(cpu, mulh, (-2i64) as u64, 3), (-1i64) as u64);
    assert_eq!(alu(cpu, mulhu, u64::MAX, u64::MAX), 0xFFFF_FFFF_FFFF_FFFE);
    assert_eq!(alu(cpu, mulhsu, (-1i64) as u64, u64::MAX), (-1i64) as u64);
    assert_eq!(alu(cpu, mulhsu, 2, u64::MAX), 1);
}

#[test]
fn div_rem_signed_values() {
    let mut emu = fresh();
    let cpu = &mut emu.cpu;
    let div = r_type(1, 21, 20, 0b100, 22, 0x33);
    let rem = r_type(1, 21, 20, 0b110, 22, 0x33);
    assert_eq!(alu(cpu, div, (-7i64) as u64, 2), (-3i64) as u64);
    assert_eq!(alu(cpu, div, 7, (-2i64) as u64), (-3i64) as u64);
    assert_eq!(alu(cpu, rem, (-7i64) as u64, 2), (-1i64) as u64);
    assert_eq!(alu(cpu, rem, 7, (-2i64) as u64), 1);
    // the lone signed-overflow case
    assert_eq!(alu(cpu, div, i64::MIN as u64, (-1i64) as u64), i64::MIN as u64);
    assert_eq!(alu(cpu, rem, i64::MIN as u64, (-1i64) as u64), 0);
}

#[test]
fn divu_remu_values() {
    let mut emu = fresh();
    let cpu = &mut emu.cpu;
    let divu = r_type(1, 21, 20, 0b101, 22, 0x33);
    let remu = r_type(1, 21, 20, 0b111, 22, 0x33);
    assert_eq!(alu(cpu, divu, u64::MAX, 16), u64::MAX / 16);
    assert_eq!(alu(cpu, remu, u64::MAX, 16), 15);
    assert_eq!(alu(cpu, divu, 5, 0), u64::MAX);
    assert_eq!(alu(cpu, remu, 5, 0), 5);
}

#[test]
fn word_width_ops_sign_extend() {
    let mut emu = fresh();
    let cpu = &mut emu.cpu;
    let addw = r_type(0, 21, 20, 0b000, 22, 0x3B);
    let subw = r_type(0x20, 21, 20, 0b000, 22, 0x3B);
    let sllw = r_type(0, 21, 20, 0b001, 22, 0x3B);
    let srlw = r_type(0, 21, 20, 0b101, 22, 0x3B);
    let sraw = r_type(0x20, 21, 20, 0b101, 22, 0x3B);
    let mulw = r_type(1, 21, 20, 0b000, 22, 0x3B);
    let divw = r_type(1, 21, 20, 0b100, 22, 0x3B);
    let remw = r_type(1, 21, 20, 0b110, 22, 0x3B);
    let divuw = r_type(1, 21, 20, 0b101, 22, 0x3B);
    let remuw = r_type(1, 21, 20, 0b111, 22, 0x3B);
    assert_eq!(alu(cpu, addw, 0x7FFF_FFFF, 1), 0xFFFF_FFFF_8000_0000);
    assert_eq!(alu(cpu, subw, 0, 1), u64::MAX);
    assert_eq!(alu(cpu, sllw, 1, 31), 0xFFFF_FFFF_8000_0000);
    assert_eq!(alu(cpu, srlw, 0x8000_0000, 31), 1);
    assert_eq!(alu(cpu, sraw, 0x8000_0000, 31), u64::MAX);
    assert_eq!(alu(cpu, mulw, 0x10000, 0x10000), 0); // low 32 bits only
    assert_eq!(alu(cpu, divw, (-8i64) as u64, 2), (-4i64) as u64);
    assert_eq!(alu(cpu, remw, (-7i64) as u64, 2), (-1i64) as u64);
    assert_eq!(alu(cpu, divw, 0x8000_0000, u32::MAX as u64), 0xFFFF_FFFF_8000_0000);
    assert_eq!(alu(cpu, divuw, 0x8000_0000, 2), 0x4000_0000);
    assert_eq!(alu(cpu, remuw, 0x8000_0001, 2), 1);
}

#[test]
fn word_width_immediates() {
    let mut emu = fresh();
    let cpu = &mut emu.cpu;
    cpu.xregs[20] = 0x7FFF_FFFF;
    cpu.execute(i_type(1, 20, 0b000, 22, 0x1B)).unwrap(); // addiw x22, x20, 1
    assert_eq!(cpu.xregs[22], 0xFFFF_FFFF_8000_0000);
    cpu.xregs[20] = 1;
    cpu.execute(i_type(31, 20, 0b001, 22, 0x1B)).unwrap(); // slliw x22, x20, 31
    assert_eq!(cpu.xregs[22], 0xFFFF_FFFF_8000_0000);
    cpu.xregs[20] = 0x8000_0000;
    cpu.execute(i_type(4, 20, 0b101, 22, 0x1B)).unwrap(); // srliw x22, x20, 4
    assert_eq!(cpu.xregs[22], 0x0800_0000);
    cpu.xregs[20] = 0x8000_0000;
    cpu.execute(i_type((0x20 << 5) | 4, 20, 0b101, 22, 0x1B)).unwrap(); // sraiw x22, x20, 4
    assert_eq!(cpu.xregs[22], 0xFFFF_FFFF_F800_0000);
}

#[test]
fn ld_sd_round_trip() {
    let mut emu = fresh();
    let addr = RAM_BASE + 0x400;
    emu.cpu.xregs[5] = addr;
    emu.cpu.xregs[6] = 0x0123_4567_89AB_CDEF;
    // sd x6, 0(x5)
    emu.cpu.execute((6 << 20) | (5 << 15) | (0b011 << 12) | 0x23).unwrap();
    // ld x7, 0(x5)
    emu.cpu.execute(i_type(0, 5, 0b011, 7, 0x03)).unwrap();
    assert_eq!(emu.cpu.xregs[7], 0x0123_4567_89AB_CDEF);
    // lwu x8, 0(x5) zero-extends
    emu.cpu.execute(i_type(0, 5, 0b110, 8, 0x03)).unwrap();
    assert_eq!(emu.cpu.xregs[8], 0x89AB_CDEF);
}

#[test]
fn amo_read_modify_write_ops() {
    let mut emu = fresh();
    let addr = RAM_BASE + 0x80;
    emu.cpu.xregs[5] = addr;
    emu.cpu.bus.write(addr, Width::Word, 10).unwrap();
    emu.cpu.xregs[6] = 7;
    emu.cpu.execute(amo(0x00, 6, 5, 0b010, 7)).unwrap(); // amoadd.w x7, x6, (x5)
    assert_eq!(emu.cpu.xregs[7], 10);
    assert_eq!(emu.cpu.bus.read(addr, Width::Word).unwrap(), 17);

    emu.cpu.xregs[6] = 0xFFFF_FFFF; // -1 as a word
    emu.cpu.execute(amo(0x10, 6, 5, 0b010, 7)).unwrap(); // amomin.w (signed)
    assert_eq!(emu.cpu.bus.read(addr, Width::Word).unwrap(), 0xFFFF_FFFF);

    emu.cpu.xregs[6] = 3;
    emu.cpu.execute(amo(0x18, 6, 5, 0b010, 7)).unwrap(); // amominu.w (unsigned)
    assert_eq!(emu.cpu.bus.read(addr, Width::Word).unwrap(), 3);

    emu.cpu.xregs[6] = 0x0F0F;
    emu.cpu.execute(amo(0x04, 6, 5, 0b010, 7)).unwrap(); // amoxor.w
    assert_eq!(emu.cpu.bus.read(addr, Width::Word).unwrap(), 0x0F0C);

    let addr8 = RAM_BASE + 0x88;
    emu.cpu.xregs[5] = addr8;
    emu.cpu.xregs[6] = 0x1111_2222_3333_4444;
    emu.cpu.execute(amo(0x01, 6, 5, 0b011, 7)).unwrap(); // amoswap.d
    assert_eq!(emu.cpu.xregs[7], 0);
    assert_eq!(emu.cpu.bus.read(addr8, Width::Double).unwrap(), 0x1111_2222_3333_4444);

    emu.cpu.xregs[6] = 0x2;
    emu.cpu.execute(amo(0x14, 6, 5, 0b011, 7)).unwrap(); // amomax.d keeps the larger
    assert_eq!(emu.cpu.bus.read(addr8, Width::Double).unwrap(), 0x1111_2222_3333_4444);
}

#[test]
fn amo_misaligned_address_faults() {
    let mut emu = fresh();
    emu.cpu.xregs[5] = RAM_BASE + 2;
    let r = emu.cpu.execute(amo(0x02, 0, 5, 0b010, 7)); // lr.w at a 2-aligned address
    assert!(matches!(r, Err(RVException::LoadAddressMisaligned)));
    emu.cpu.xregs[5] = RAM_BASE + 4;
    let r = emu.cpu.execute(amo(0x02, 0, 5, 0b011, 7)); // lr.d at a 4-aligned address
    assert!(matches!(r, Err(RVException::LoadAddressMisaligned)));
}

#[test]
fn lr_sc_doubleword() {
    let mut emu = fresh();
    let addr = RAM_BASE + 0x90;
    emu.cpu.bus.write(addr, Width::Double, 0xAAAA_BBBB_CCCC_DDDD).unwrap();
    emu.cpu.xregs[5] = addr;
    emu.cpu.xregs[6] = 42;
    emu.cpu.execute(amo(0x02, 0, 5, 0b011, 7)).unwrap(); // lr.d
    assert_eq!(emu.cpu.xregs[7], 0xAAAA_BBBB_CCCC_DDDD);
    emu.cpu.execute(amo(0x03, 6, 5, 0b011, 8)).unwrap(); // sc.d
    assert_eq!(emu.cpu.xregs[8], 0);
    assert_eq!(emu.cpu.bus.read(addr, Width::Double).unwrap(), 42);
}

#[test]
fn store_invalidates_reservation() {
    let mut emu = fresh();
    let addr = RAM_BASE + 0xA0;
    emu.cpu.xregs[5] = addr;
    emu.cpu.xregs[6] = 9;
    emu.cpu.execute(amo(0x02, 0, 5, 0b010, 7)).unwrap(); // lr.w
    // an ordinary store to the same address consumes the reservation
    emu.cpu.execute((6 << 20) | (5 << 15) | (0b010 << 12) | 0x23).unwrap(); // sw x6, 0(x5)
    emu.cpu.execute(amo(0x03, 6, 5, 0b010, 8)).unwrap(); // sc.w fails now
    assert_eq!(emu.cpu.xregs[8], 1);
}

#[test]
fn csr_read_modify_write() {
    let mut emu = fresh();
    let cpu = &mut emu.cpu;
    let csr = 0x340u32; // an ordinary cell
    cpu.xregs[5] = 0b1100;
    cpu.execute(i_type(csr, 5, 0b001, 6, 0x73)).unwrap(); // csrrw x6, csr, x5
    assert_eq!(cpu.xregs[6], 0);
    assert_eq!(cpu.csrs[csr as usize], 0b1100);
    cpu.xregs[5] = 0b0011;
    cpu.execute(i_type(csr, 5, 0b010, 6, 0x73)).unwrap(); // csrrs
    assert_eq!(cpu.xregs[6], 0b1100);
    assert_eq!(cpu.csrs[csr as usize], 0b1111);
    cpu.xregs[5] = 0b0101;
    cpu.execute(i_type(csr, 5, 0b011, 6, 0x73)).unwrap(); // csrrc
    assert_eq!(cpu.xregs[6], 0b1111);
    assert_eq!(cpu.csrs[csr as usize], 0b1010);
    cpu.execute(i_type(csr, 0b10001, 0b101, 6, 0x73)).unwrap(); // csrrwi with zimm 17
    assert_eq!(cpu.xregs[6], 0b1010);
    assert_eq!(cpu.csrs[csr as usize], 17);
    cpu.execute(i_type(csr, 0b00010, 0b110, 6, 0x73)).unwrap(); // csrrsi
    assert_eq!(cpu.csrs[csr as usize], 19);
    cpu.execute(i_type(csr, 0b00011, 0b111, 6, 0x73)).unwrap(); // csrrci
    assert_eq!(cpu.csrs[csr as usize], 16);
}

#[test]
fn csr_write_to_x0_is_discarded() {
    // csrrw x0, 0x340, x0 reads 99 into x0, which stays zero after retirement
    let mut code = vec![];
    code.extend(i_type(0x340, 0, 0b001, 0, 0x73).to_le_bytes());
    let mut emu = Emulator::new(0x10000);
    emu.init_ram(code);
    emu.cpu.csrs[0x340] = 99;
    emu.cpu.fetch_and_execute().unwrap();
    assert_eq!(emu.cpu.xregs[0], 0);
}

#[test]
fn fence_and_fence_i_are_no_ops() {
    let mut emu = fresh();
    let pc = emu.cpu.pc;
    emu.cpu.execute(0x0000000F).unwrap(); // fence
    assert_eq!(emu.cpu.pc, pc + 4);
    emu.cpu.execute(0x0000100F).unwrap(); // fence.i
    assert_eq!(emu.cpu.pc, pc + 8);
}

#[test]
fn ecall_and_ebreak_raise() {
    let mut emu = fresh();
    assert!(matches!(emu.cpu.execute(0x0000_0073), Err(RVException::EnvironmentCall)));
    assert!(matches!(emu.cpu.execute(0x0010_0073), Err(RVException::Breakpoint)));
}

#[test]
fn illegal_instruction_carries_word() {
    let mut emu = fresh();
    assert!(matches!(emu.cpu.execute(0), Err(RVException::IllegalInstruction(0))));
    let weird = 0xDEAD_BEEF_u32 | 0x7F; // an unused opcode
    assert!(matches!(emu.cpu.execute(weird), Err(RVException::IllegalInstruction(w)) if w == weird));
}

#[test]
fn load_outside_the_map_faults() {
    let mut emu = fresh();
    emu.cpu.xregs[5] = 0x10; // below the ROM base
    let r = emu.cpu.execute(i_type(0, 5, 0b010, 7, 0x03)); // lw
    assert!(matches!(r, Err(RVException::LoadAccessFault)));
    // a load that runs off the end of RAM faults as well
    emu.cpu.xregs[5] = RAM_BASE + 0xFFFF;
    let r = emu.cpu.execute(i_type(0, 5, 0b011, 7, 0x03)); // ld
    assert!(matches!(r, Err(RVException::LoadAccessFault)));
}

#[test]
fn store_to_rom_or_outside_faults() {
    let mut emu = fresh();
    emu.cpu.xregs[5] = ROM_BASE;
    emu.cpu.xregs[6] = 1;
    let sw = (6 << 20) | (5 << 15) | (0b010 << 12) | 0x23;
    assert!(matches!(emu.cpu.execute(sw), Err(RVException::StoreAccessFault)));
    emu.cpu.xregs[5] = 0x10;
    assert!(matches!(emu.cpu.execute(sw), Err(RVException::StoreAccessFault)));
}

#[test]
fn boot_from_rom_image() {
    let mut emu = Emulator::new(0x10000);
    let mut code = vec![];
    code.extend(i_type(7, 0, 0b000, 1, 0x13).to_le_bytes()); // addi x1, x0, 7
    code.extend(jal_enc(0, 0).to_le_bytes()); // jump to self: halt
    emu.init_rom(code);
    assert_eq!(emu.cpu.pc, ROM_BASE);
    let r = emu.run();
    assert!(r.is_ok());
    assert_eq!(emu.cpu.xregs[1], 7);
}

#[test]
fn run_for_reports_out_of_gas() {
    // two jumps that bounce between address 0 and 8 never halt
    let mut emu = Emulator::new(0x10000);
    let mut code = vec![];
    code.extend(jal_enc(0, 8).to_le_bytes());
    code.extend([0, 0, 0, 0]);
    code.extend(jal_enc(0, -8).to_le_bytes());
    emu.init_ram(code);
    assert_eq!(emu.run_for(100), RunStatus::OutOfGas);
    assert_eq!(emu.run_for(1), RunStatus::OutOfGas);
}

#[test]
fn initial_machine_state() {
    let emu = Emulator::new(0x5000);
    assert_eq!(emu.cpu.pc, 0);
    for (idx, v) in emu.cpu.xregs.iter().enumerate() {
        if idx == 2 {
            assert_eq!(*v, RAM_BASE + 0x5000);
        } else {
            assert_eq!(*v, 0);
        }
    }
    assert!(emu.cpu.csrs.iter().all(|c| *c == 0));
    assert!(emu.cpu.reservations.is_empty());
}

#[test]
fn tick_time_advances_the_time_csr() {
    let mut emu = fresh();
    assert_eq!(emu.cpu.csrs[CSR_TIME], 0);
    emu.cpu.tick_time();
    emu.cpu.tick_time();
    assert_eq!(emu.cpu.csrs[CSR_TIME], 2);
}

#[test]
fn exception_recoverability() {
    assert!(RVException::EnvironmentCall.is_recoverable());
    assert!(RVException::Breakpoint.is_recoverable());
    assert!(!RVException::LoadAccessFault.is_recoverable());
    assert!(!RVException::StoreAccessFault.is_recoverable());
    assert!(!RVException::LoadAddressMisaligned.is_recoverable());
    assert!(!RVException::IllegalInstruction(0).is_recoverable());
}

#[test]
fn ram_initialize_overwrites_a_prefix() {
    let mut ram = RAM::new(8);
    ram.initialize(vec![1, 2, 3]);
    assert_eq!(ram.size(), 8);
    assert_eq!(ram.read(0, Width::Word).unwrap(), 0x0003_0201);
    assert_eq!(ram.read(4, Width::Word).unwrap(), 0);
    assert!(matches!(ram.read(5, Width::Word), Err(RVException::LoadAccessFault)));
    assert!(matches!(ram.write(5, Width::Word, 1), Err(RVException::StoreAccessFault)));
}

#[test]
fn rom_refuses_writes() {
    let mut rom = ROM::new(8);
    rom.initialize(vec![0xAA, 0xBB]);
    assert_eq!(rom.read(0, Width::Half).unwrap(), 0xBBAA);
    assert!(matches!(rom.write(0, Width::Byte, 1), Err(RVException::StoreAccessFault)));
    assert_eq!(rom.read(0, Width::Half).unwrap(), 0xBBAA);
}

#[test]
fn float_load_store_round_trip() {
    let mut emu = fresh();
    let addr = RAM_BASE + 0x500;
    emu.cpu.xregs[5] = addr;
    emu.cpu.bus.write(addr, Width::Word, 1.5f32.to_bits() as u64).unwrap();
    emu.cpu.execute(i_type(0, 5, 0b010, 3, 0x07)).unwrap(); // flw f3, 0(x5)
    assert_eq!(emu.cpu.fregs[3], 1.5f32.to_bits());
    emu.cpu.fregs[4] = (-2.25f32).to_bits();
    // fsw f4, 4(x5)
    emu.cpu
        .execute((4 << 20) | (5 << 15) | (0b010 << 12) | (4 << 7) | 0x27)
        .unwrap();
    assert_eq!(
        emu.cpu.bus.read(addr + 4, Width::Word).unwrap() as u32,
        (-2.25f32).to_bits()
    );
}

#[test]
fn float_sign_injection() {
    let mut emu = fresh();
    emu.cpu.fregs[1] = 1.5f32.to_bits();
    emu.cpu.fregs[2] = (-3.0f32).to_bits();
    emu.cpu.execute(r_type(0x10, 2, 1, 0b000, 3, 0x53)).unwrap(); // fsgnj.s f3, f1, f2
    assert_eq!(emu.cpu.fregs[3], (-1.5f32).to_bits());
    emu.cpu.execute(r_type(0x10, 2, 1, 0b001, 4, 0x53)).unwrap(); // fsgnjn.s f4, f1, f2
    assert_eq!(emu.cpu.fregs[4], 1.5f32.to_bits());
    emu.cpu.execute(r_type(0x10, 2, 1, 0b010, 5, 0x53)).unwrap(); // fsgnjx.s f5, f1, f2
    assert_eq!(emu.cpu.fregs[5], (-1.5f32).to_bits());
}

#[test]
fn float_compare_and_nan() {
    let mut emu = fresh();
    emu.cpu.fregs[1] = 1.0f32.to_bits();
    emu.cpu.fregs[2] = 2.0f32.to_bits();
    emu.cpu.fregs[3] = f32::NAN.to_bits();
    emu.cpu.execute(r_type(0x50, 2, 1, 0b001, 10, 0x53)).unwrap(); // flt.s x10, f1, f2
    assert_eq!(emu.cpu.xregs[10], 1);
    emu.cpu.execute(r_type(0x50, 1, 2, 0b000, 11, 0x53)).unwrap(); // fle.s x11, f2, f1
    assert_eq!(emu.cpu.xregs[11], 0);
    emu.cpu.execute(r_type(0x50, 1, 1, 0b010, 12, 0x53)).unwrap(); // feq.s x12, f1, f1
    assert_eq!(emu.cpu.xregs[12], 1);
    emu.cpu.execute(r_type(0x50, 3, 1, 0b010, 13, 0x53)).unwrap(); // feq.s against NaN
    assert_eq!(emu.cpu.xregs[13], 0);
    emu.cpu.execute(r_type(0x50, 3, 1, 0b001, 14, 0x53)).unwrap(); // flt.s against NaN
    assert_eq!(emu.cpu.xregs[14], 0);
    // the two zeroes compare equal
    emu.cpu.fregs[4] = (-0.0f32).to_bits();
    emu.cpu.fregs[5] = 0.0f32.to_bits();
    emu.cpu.execute(r_type(0x50, 5, 4, 0b010, 15, 0x53)).unwrap();
    assert_eq!(emu.cpu.xregs[15], 1);
}

#[test]
fn float_min_max() {
    let mut emu = fresh();
    emu.cpu.fregs[1] = (-1.0f32).to_bits();
    emu.cpu.fregs[2] = 2.0f32.to_bits();
    emu.cpu.fregs[3] = f32::NAN.to_bits();
    emu.cpu.execute(r_type(0x14, 2, 1, 0b000, 4, 0x53)).unwrap(); // fmin.s
    assert_eq!(emu.cpu.fregs[4], (-1.0f32).to_bits());
    emu.cpu.execute(r_type(0x14, 2, 1, 0b001, 5, 0x53)).unwrap(); // fmax.s
    assert_eq!(emu.cpu.fregs[5], 2.0f32.to_bits());
    emu.cpu.execute(r_type(0x14, 3, 1, 0b000, 6, 0x53)).unwrap(); // fmin.s with one NaN
    assert_eq!(emu.cpu.fregs[6], (-1.0f32).to_bits());
    emu.cpu.execute(r_type(0x14, 3, 3, 0b001, 7, 0x53)).unwrap(); // fmax.s of two NaNs
    assert_eq!(emu.cpu.fregs[7], 0x7FC0_0000);
    // fmin prefers the negative zero
    emu.cpu.fregs[8] = (-0.0f32).to_bits();
    emu.cpu.fregs[9] = 0.0f32.to_bits();
    emu.cpu.execute(r_type(0x14, 9, 8, 0b000, 10, 0x53)).unwrap();
    assert_eq!(emu.cpu.fregs[10], (-0.0f32).to_bits());
}

#[test]
fn float_moves_and_class() {
    let mut emu = fresh();
    emu.cpu.xregs[1] = 0xFFFF_0000_8000_0001;
    emu.cpu.execute(r_type(0x78, 0, 1, 0b000, 2, 0x53)).unwrap(); // fmv.w.x f2, x1
    assert_eq!(emu.cpu.fregs[2], 0x8000_0001);
    emu.cpu.execute(r_type(0x70, 0, 2, 0b000, 3, 0x53)).unwrap(); // fmv.x.w x3, f2
    assert_eq!(emu.cpu.xregs[3], 0xFFFF_FFFF_8000_0001);

    emu.cpu.fregs[4] = f32::NEG_INFINITY.to_bits();
    emu.cpu.execute(r_type(0x70, 0, 4, 0b001, 5, 0x53)).unwrap(); // fclass.s
    assert_eq!(emu.cpu.xregs[5], 0x001);
    emu.cpu.fregs[4] = (-0.0f32).to_bits();
    emu.cpu.execute(r_type(0x70, 0, 4, 0b001, 5, 0x53)).unwrap();
    assert_eq!(emu.cpu.xregs[5], 0x008);
    emu.cpu.fregs[4] = 1.0f32.to_bits();
    emu.cpu.execute(r_type(0x70, 0, 4, 0b001, 5, 0x53)).unwrap();
    assert_eq!(emu.cpu.xregs[5], 0x040);
    emu.cpu.fregs[4] = 1; // smallest positive subnormal
    emu.cpu.execute(r_type(0x70, 0, 4, 0b001, 5, 0x53)).unwrap();
    assert_eq!(emu.cpu.xregs[5], 0x020);
    emu.cpu.fregs[4] = f32::NAN.to_bits();
    emu.cpu.execute(r_type(0x70, 0, 4, 0b001, 5, 0x53)).unwrap();
    assert_eq!(emu.cpu.xregs[5], 0x200);
    emu.cpu.fregs[4] = 0x7F80_0001; // signaling NaN
    emu.cpu.execute(r_type(0x70, 0, 4, 0b001, 5, 0x53)).unwrap();
    assert_eq!(emu.cpu.xregs[5], 0x100);
}

#[test]
fn float_arithmetic_encodings_are_rejected() {
    let mut emu = fresh();
    let fadd = r_type(0x00, 2, 1, 0b000, 3, 0x53);
    assert!(matches!(
        emu.cpu.execute(fadd),
        Err(RVException::IllegalInstruction(w)) if w == fadd
    ));
}

#[test]
fn run_resuming_continues_past_ecall_and_ebreak() {
    let mut emu = Emulator::new(0x10000);
    let mut code = vec![];
    code.extend(i_type(1, 0, 0b000, 1, 0x13).to_le_bytes()); // addi x1, x0, 1
    code.extend(0x0000_0073u32.to_le_bytes()); // ecall
    code.extend(i_type(2, 0, 0b000, 2, 0x13).to_le_bytes()); // addi x2, x0, 2
    code.extend(0x0010_0073u32.to_le_bytes()); // ebreak
    code.extend(jal_enc(0, 0).to_le_bytes()); // jump to self: halt
    emu.init_ram(code);
    assert_eq!(emu.run_resuming(100), RunStatus::Halted);
    assert_eq!(emu.cpu.xregs[1], 1);
    assert_eq!(emu.cpu.xregs[2], 2);
}

#[test]
fn run_resuming_stops_on_unrecoverable_fault() {
    let mut emu = Emulator::new(0x10000);
    let mut code = vec![];
    code.extend(0x0000_0073u32.to_le_bytes()); // ecall: resumed
    code.extend(i_type(0, 5, 0b010, 7, 0x03).to_le_bytes()); // lw x7, 0(x5): x5 is 0, unmapped
    emu.init_ram(code);
    assert_eq!(
        emu.run_resuming(100),
        RunStatus::Trapped(RVException::LoadAccessFault)
    );
}
