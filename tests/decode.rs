use rs_riscv_sc::cpu::parse_inst_length;
use rs_riscv_sc::cpu::rv32::{
    get_bits, get_bits_extended, get_funct3, get_imm_branch, get_imm_jal, get_imm_ld, get_imm_st,
    get_op, get_rd, get_rs1, get_rs2, sign_extend,
};

#[test]
fn test_get_bits() {
    let t: u32 = 0b01111000;
    assert!(get_bits(t, 6, 3) == 0b1111);
    assert!(get_bits(t, 3, 0) == 0b1000);
}

#[test]
fn test_get_imm_jal() {
    let b: u32 = 0xffffffff;
    println!("{:b}", get_imm_jal(b));
    assert!(get_imm_jal(b) == 0xfffffffe);
    let b: u32 = 0x7affffff;
    assert!(get_imm_jal(b) == 0b011111111111110101110);
}

#[test]
fn test_sign_extend() {
    let b: u32 = 0b11111111;
    assert!(sign_extend(b, 7) == 0xffffffff);
    let b: u32 = 0b111111;
    assert!(sign_extend(b, 5) == 0xffffffff);
    let b: u32 = 0b11110000;
    assert!(sign_extend(b, 7) == 0xfffffff0);
}

#[test]
fn fields_of_addi() {
    // addi x5, x6, 10
    let inst: u32 = 0x00a3_0293;
    assert_eq!(get_op(inst), 0b00100);
    assert_eq!(get_funct3(inst), 0);
    assert_eq!(get_rd(inst), 5);
    assert_eq!(get_rs1(inst), 6);
    assert_eq!(get_imm_ld(inst), 10);
    // add x5, x6, x7
    assert_eq!(get_rs2(0x0073_02b3), 7);
}

#[test]
fn extended_immediate() {
    assert_eq!(get_bits_extended(0xfff0_0093, 31, 20), 0xffff_ffff);
    assert_eq!(get_bits_extended(0x7ff0_0093, 31, 20), 0x7ff);
}

#[test]
fn store_immediate() {
    // sw x5, 8(x2)
    assert_eq!(get_imm_st(0x0051_2423), 8);
    // sw x5, -4(x2)
    assert_eq!(get_imm_st(0xfe51_2e23), 0xffc);
    assert_eq!(sign_extend(get_imm_st(0xfe51_2e23), 11), 0xffff_fffc);
}

#[test]
fn branch_immediate() {
    // beq x0, x0, -4
    assert_eq!(get_imm_branch(0xfe00_0ee3), 0x1ffc);
    assert_eq!(sign_extend(get_imm_branch(0xfe00_0ee3), 12), 0xffff_fffc);
    // beq x1, x2, 8
    assert_eq!(get_imm_branch(0x0020_8463), 8);
}

#[test]
fn jump_immediate_small() {
    // jal x1, 4 and jal x0, -4
    assert_eq!(get_imm_jal(0x0040_00ef), 4);
    assert_eq!(get_imm_jal(0xffdf_f06f), 0xffff_fffc);
}

#[test]
fn instruction_lengths() {
    assert_eq!(parse_inst_length(0x13), 4);
    assert_eq!(parse_inst_length(0x1f), 4);
    assert_eq!(parse_inst_length(0x3f), 8);
    assert_eq!(parse_inst_length(0x7f), 2);
    assert_eq!(parse_inst_length(0x01), 2);
    assert_eq!(parse_inst_length(0x8426), 2);
}
