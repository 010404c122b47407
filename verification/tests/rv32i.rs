use risemu::bus::{Width, RAM_BASE};
use risemu::emulator::Emulator;

const RAM_SIZE: usize = 0x10000;

fn execute(code: Vec<u8>, expected: Vec<(usize, u64)>) {
    let mut emu = Emulator::new(RAM_SIZE);
    let code_length = code.len() as u64;
    emu.init_ram(code);
    while emu.cpu.pc < RAM_BASE + code_length {
        match emu.cpu.fetch_and_execute() {
            Ok(()) => {}
            Err(ex) => {
                println!("error @ {:#x} [{ex:#?}]", emu.cpu.pc);
                break;
            }
        }
    }
    let mut xregs = [0u64; 32];
    xregs[2] = RAM_BASE + (RAM_SIZE as u64);
    for (idx, value) in expected.iter() {
        xregs[*idx] = *value;
    }
    for (idx, expected_value) in xregs.iter().enumerate() {
        assert_eq!(
            *expected_value, emu.cpu.xregs[idx],
            "expected register {idx} to be {expected_value:#x} but it's {:#x}",
            emu.cpu.xregs[idx]
        );
    }
}

fn i_type(imm: u32, rs1: u32, f3: u32, rd: u32, op: u32) -> u32 {
    ((imm & 0xFFF) << 20) | (rs1 << 15) | (f3 << 12) | (rd << 7) | op
}

fn s_type(imm: u32, rs2: u32, rs1: u32, f3: u32) -> u32 {
    (((imm >> 5) & 0x7F) << 25) | (rs2 << 20) | (rs1 << 15) | (f3 << 12) | ((imm & 0x1F) << 7)
        | 0x23
}

#[test]
fn lui_rd_imm() {
    execute(
        vec![
            0x37, 0x28, 0x00, 0x00, // lui x16, 2
        ],
        vec![(16, 8192)],
    );
}

#[test]
fn auipc_rd_imm() {
    execute(
        vec![
            0x17, 0x28, 0x00, 0x00, // auipc x16, 2
        ],
        vec![(16, 0x2000 + RAM_BASE)],
    );
}

#[test]
fn jal_rd_imm() {
    execute(
        vec![
            0x13, 0x08, 0x30, 0x00, // addi x16, x0, 3
            0x93, 0x08, 0x50, 0x00, // addi x17, x0, 5
            0x6f, 0x09, 0xc0, 0x00, // jal x18, 12
        ],
        vec![(16, 3), (17, 5), (18, 12 + RAM_BASE)],
    );
}

#[test]
fn jalr_rd_imm() {
    execute(
        vec![
            0x13, 0x08, 0x30, 0x00, // addi x16, x0, 3
            0x93, 0x08, 0x50, 0x00, // addi x17, x0, 5
            0x67, 0x09, 0xc0, 0x02, // jalr x18, x0, 44
        ],
        vec![(16, 3), (17, 5), (18, 12 + RAM_BASE)],
    );
}

#[test]
fn beq_rs1_rs2_imm() {
    execute(
        vec![
            0x13, 0x08, 0x30, 0x00, // addi x16, x0, 3
            0x93, 0x08, 0x30, 0x00, // addi x17, x0, 3
            0x63, 0x06, 0x18, 0x01, // beq x16, x17, 12
        ],
        vec![(16, 3), (17, 3)],
    );
}

#[test]
fn bne_rs1_rs2_imm() {
    execute(
        vec![
            0x13, 0x08, 0x30, 0x00, // addi x16, x0, 3
            0x93, 0x08, 0x50, 0x00, // addi x17, x0, 5
            0x63, 0x16, 0x18, 0x01, // bne x16, x17, 12
        ],
        vec![(16, 3), (17, 5)],
    );
}

#[test]
fn blt_rs1_rs2_imm() {
    execute(
        vec![
            0x13, 0x08, 0xd0, 0xff, // addi x16, x0, -3
            0x93, 0x08, 0x50, 0x00, // addi x17, x0, 5
            0x63, 0x46, 0x18, 0x01, // blt x16, x17, 12
        ],
        vec![(16, (-3i64) as u64), (17, 5)],
    );
}

#[test]
fn bge_rs1_rs2_imm() {
    execute(
        vec![
            0x13, 0x08, 0xd0, 0xff, // addi x16, x0, -3
            0x93, 0x08, 0xd0, 0xff, // addi x17, x0, -3
            0x63, 0x56, 0x18, 0x01, // bge x16, x17, 12
        ],
        vec![(16, (-3i64) as u64), (17, (-3i64) as u64)],
    );
}

#[test]
fn bltu_rs1_rs2_imm() {
    execute(
        vec![
            0x13, 0x08, 0x30, 0x00, // addi x16, x0, 3
            0x93, 0x08, 0x50, 0x00, // addi x17, x0, 5
            0x63, 0x66, 0x18, 0x01, // bltu x16, x17, 12
        ],
        vec![(16, 3), (17, 5)],
    );
}

#[test]
fn bgeu_rs1_rs2_imm() {
    execute(
        vec![
            0x13, 0x08, 0x50, 0x00, // addi x16, x0, 5
            0x93, 0x08, 0x30, 0x00, // addi x17, x0, 3
            0x63, 0x76, 0x18, 0x01, // bgeu x16, x17, 12
        ],
        vec![(16, 5), (17, 3)],
    );
}

#[test]
fn lb_rd_offset_rs1() {
    let mut emu = Emulator::new(RAM_SIZE);
    emu.init_ram(vec![]);
    emu.cpu.bus.write(RAM_BASE + 0x100, Width::Byte, 0x80).unwrap();
    emu.cpu.xregs[5] = RAM_BASE + 0xF0;
    emu.cpu.execute(i_type(0x10, 5, 0b000, 7, 0x03)).unwrap(); // lb x7, 16(x5)
    assert_eq!(emu.cpu.xregs[7], 0xFFFF_FFFF_FFFF_FF80);
}

#[test]
fn lh_rd_offset_rs1() {
    let mut emu = Emulator::new(RAM_SIZE);
    emu.init_ram(vec![]);
    emu.cpu.bus.write(RAM_BASE + 0x100, Width::Half, 0x8001).unwrap();
    emu.cpu.xregs[5] = RAM_BASE + 0xF0;
    emu.cpu.execute(i_type(0x10, 5, 0b001, 7, 0x03)).unwrap(); // lh x7, 16(x5)
    assert_eq!(emu.cpu.xregs[7], 0xFFFF_FFFF_FFFF_8001);
}

#[test]
fn lw_rd_offset_rs1() {
    let mut emu = Emulator::new(RAM_SIZE);
    emu.init_ram(vec![]);
    emu.cpu.bus.write(RAM_BASE + 0x100, Width::Word, 0x8000_0001).unwrap();
    emu.cpu.xregs[5] = RAM_BASE + 0xF0;
    emu.cpu.execute(i_type(0x10, 5, 0b010, 7, 0x03)).unwrap(); // lw x7, 16(x5)
    assert_eq!(emu.cpu.xregs[7], 0xFFFF_FFFF_8000_0001);
}

#[test]
fn lbu_rd_offset_rs1() {
    let mut emu = Emulator::new(RAM_SIZE);
    emu.init_ram(vec![]);
    emu.cpu.bus.write(RAM_BASE + 0x100, Width::Byte, 0x80).unwrap();
    emu.cpu.xregs[5] = RAM_BASE + 0xF0;
    emu.cpu.execute(i_type(0x10, 5, 0b100, 7, 0x03)).unwrap(); // lbu x7, 16(x5)
    assert_eq!(emu.cpu.xregs[7], 0x80);
}

#[test]
fn lhu_rd_offset_rs1() {
    let mut emu = Emulator::new(RAM_SIZE);
    emu.init_ram(vec![]);
    emu.cpu.bus.write(RAM_BASE + 0x100, Width::Half, 0x8001).unwrap();
    emu.cpu.xregs[5] = RAM_BASE + 0xF0;
    emu.cpu.execute(i_type(0x10, 5, 0b101, 7, 0x03)).unwrap(); // lhu x7, 16(x5)
    assert_eq!(emu.cpu.xregs[7], 0x8001);
}

#[test]
fn sb_rs2_offset_rs1() {
    let mut emu = Emulator::new(RAM_SIZE);
    emu.init_ram(vec![]);
    emu.cpu.xregs[5] = RAM_BASE + 0xF0;
    emu.cpu.xregs[6] = 0x1234_5678_9ABC_DEF0;
    emu.cpu.execute(s_type(0x10, 6, 5, 0b000)).unwrap(); // sb x6, 16(x5)
    assert_eq!(emu.cpu.bus.read(RAM_BASE + 0x100, Width::Double).unwrap(), 0xF0);
}

#[test]
fn sh_rs2_offset_rs1() {
    let mut emu = Emulator::new(RAM_SIZE);
    emu.init_ram(vec![]);
    emu.cpu.xregs[5] = RAM_BASE + 0xF0;
    emu.cpu.xregs[6] = 0x1234_5678_9ABC_DEF0;
    emu.cpu.execute(s_type(0x10, 6, 5, 0b001)).unwrap(); // sh x6, 16(x5)
    assert_eq!(emu.cpu.bus.read(RAM_BASE + 0x100, Width::Double).unwrap(), 0xDEF0);
}

#[test]
fn sw_rs2_offset_rs1() {
    let mut emu = Emulator::new(RAM_SIZE);
    emu.init_ram(vec![]);
    emu.cpu.xregs[5] = RAM_BASE + 0xF0;
    emu.cpu.xregs[6] = 0x1234_5678_9ABC_DEF0;
    emu.cpu.execute(s_type(0x10, 6, 5, 0b010)).unwrap(); // sw x6, 16(x5)
    assert_eq!(emu.cpu.bus.read(RAM_BASE + 0x100, Width::Double).unwrap(), 0x9ABC_DEF0);
}

#[test]
fn addi_rd_rs1_imm() {
    execute(
        vec![
            0x93, 0x0F, 0x40, 0x00, // addi x31, x0, 4
        ],
        vec![(31, 4)],
    );
}

#[test]
fn slti_rd_rs1_imm() {
    execute(
        vec![
            0x13, 0x08, 0xb0, 0xff, // addi x16 x0, -5
            0x93, 0x28, 0xe8, 0xff, // slti x17, x16, -2
        ],
        vec![(16, (-5i64) as u64), (17, 1)],
    );
}

#[test]
fn sltiu_rd_rs1_imm() {
    execute(
        vec![
            0x13, 0x08, 0x20, 0x00, // addi x16, x0, 2
            0x93, 0x38, 0x58, 0x00, // sltiu, x17, x16, 5
        ],
        vec![(16, 2), (17, 1)],
    );
}

#[test]
fn xori_rd_rs1_imm() {
    execute(
        vec![
            0x13, 0x08, 0x30, 0x00, // addi x16, x0, 3
            0x93, 0x48, 0x68, 0x00, // xori, x17, x16, 6
        ],
        vec![(16, 3), (17, 5)],
    );
}

#[test]
fn ori_rd_rs1_imm() {
    execute(
        vec![
            0x13, 0x08, 0x30, 0x00, // addi x16, x0, 3
            0x93, 0x68, 0x68, 0x00, // ori, x17, x16, 6
        ],
        vec![(16, 3), (17, 7)],
    );
}

#[test]
fn andi_rd_rs1_imm() {
    execute(
        vec![
            0x13, 0x08, 0x40, 0x00, // addi x16, x0, 4
            0x93, 0x78, 0x78, 0x00, // andi, x17, x16, 7
        ],
        vec![(16, 4), (17, 4)],
    );
}

#[test]
fn slli_rd_rs1_imm() {
    execute(
        vec![
            0x13, 0x08, 0x20, 0x00, // addi x16 x0, 2
            0x93, 0x18, 0x38, 0x00, // slli x17, x16, 3
        ],
        vec![(16, 2), (17, 16)],
    );
}

#[test]
fn srli_rd_rs1_imm() {
    execute(
        vec![
            0x13, 0x08, 0x80, 0x00, // addi x16, x0, 8
            0x93, 0x58, 0x28, 0x00, // srli x17, x16, 2
        ],
        vec![(16, 8), (17, 2)],
    );
}

#[test]
fn srai_rd_rs1_imm() {
    execute(
        vec![
            0x13, 0x08, 0x80, 0xff, // addi x16, x0, -8
            0x93, 0x58, 0x28, 0x40, // srai x17, x16, 2
        ],
        vec![(16, (-8i64) as u64), (17, (-2i64) as u64)],
    );
}

#[test]
fn add_rd_rs1_rs2() {
    execute(
        vec![
            0x93, 0x01, 0x50, 0x00, // addi x3, x0, 5
            0x13, 0x02, 0x60, 0x00, // addi x4, x0, 6
            0x33, 0x81, 0x41, 0x00, // add x2, x3, x4
        ],
        vec![(2, 11), (3, 5), (4, 6)],
    );
}

#[test]
fn sub_rd_rs1_rs2() {
    execute(
        vec![
            0x93, 0x01, 0x50, 0x00, // addi x3, x0, 5
            0x13, 0x02, 0x60, 0x00, // addi x4, x0, 6
            0x33, 0x81, 0x41, 0x40, // sub x2, x3, x4
        ],
        vec![(2, (-1i64) as u64), (3, 5), (4, 6)],
    );
}

#[test]
fn sll_rd_rs1_rs2() {
    execute(
        vec![
            0x13, 0x08, 0x80, 0x00, // addi x16, x0, 8
            0x93, 0x08, 0x20, 0x00, // addi x17, x0, 2
            0x33, 0x19, 0x18, 0x01, // sll x18, x16, x17
        ],
        vec![(16, 8), (17, 2), (18, 32)],
    );
}

#[test]
fn slt_rd_rs1_rs2() {
    execute(
        vec![
            0x13, 0x08, 0x80, 0xff, // addi x16, x0, -8
            0x93, 0x08, 0x20, 0x00, // addi x17, x0, 2
            0x33, 0x29, 0x18, 0x01, // slt x18, x16, x17
        ],
        vec![(16, (-8i64) as u64), (17, 2), (18, 1)],
    );
}

#[test]
fn sltu_rd_rs1_rs2() {
    execute(
        vec![
            0x13, 0x08, 0x80, 0x00, // addi x16, x0, 8
            0x93, 0x08, 0x20, 0x00, // addi x17, x0, 2
            0x33, 0xb9, 0x08, 0x01, // sltu x18, x17, x16
        ],
        vec![(16, 8), (17, 2), (18, 1)],
    );
}

#[test]
fn xor_rd_rs1_rs2() {
    execute(
        vec![
            0x13, 0x08, 0x30, 0x00, // addi x16, x0, 3
            0x93, 0x08, 0x60, 0x00, // addi x17, x0, 6
            0x33, 0x49, 0x18, 0x01, // xor x18, x16, x17
        ],
        vec![(16, 3), (17, 6), (18, 5)],
    );
}

#[test]
fn srl_rd_rs1_rs2() {
    execute(
        vec![
            0x13, 0x08, 0x00, 0x01, // addi x16, x0, 16
            0x93, 0x08, 0x20, 0x00, // addi x17, x0, 2
            0x33, 0x59, 0x18, 0x01, // srl x18, x16, x17
        ],
        vec![(16, 16), (17, 2), (18, 4)],
    );
}

#[test]
fn sra_rd_rs1_rs2() {
    execute(
        vec![
            0x13, 0x08, 0x00, 0xff, // addi x16, x0, -16
            0x93, 0x08, 0x20, 0x00, // addi x17, x0, 2
            0x33, 0x59, 0x18, 0x41, // sra x18, x16, x17
        ],
        vec![(16, (-16i64) as u64), (17, 2), (18, (-4i64) as u64)],
    );
}

#[test]
fn or_rd_rs1_rs2() {
    execute(
        vec![
            0x13, 0x08, 0x30, 0x00, // addi x16, x0, 3
            0x93, 0x08, 0x50, 0x00, // addi x17, x0, 5
            0x33, 0x69, 0x18, 0x01, // or x18, x16, x17
        ],
        vec![(16, 3), (17, 5), (18, 7)],
    );
}

#[test]
fn and_rd_rs1_rs2() {
    execute(
        vec![
            0x13, 0x08, 0x30, 0x00, // addi x16, x0, 3
            0x93, 0x08, 0x50, 0x00, // addi x17, x0, 5
            0x33, 0x79, 0x18, 0x01, // and x18, x16, x17
        ],
        vec![(16, 3), (17, 5), (18, 1)],
    );
}
