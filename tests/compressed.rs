use rs_riscv_sc::cpu::rv32::{get_bits_extended, get_imm_jal, get_rd, get_rs1};
use rs_riscv_sc::cpu::Cpu;

#[test]
fn expands_shift_left() {
    // c.slli x5, 3 -> slli x5, x5, 3
    assert_eq!(Cpu::uncompress(0x028e), Ok(0x0032_9293));
}

#[test]
fn expands_move() {
    // c.mv x8, x9 -> add x8, x0, x9
    assert_eq!(Cpu::uncompress(0x8426), Ok(0x0090_0433));
}

#[test]
fn expands_load_word_from_stack() {
    // offset {3:2, 12, 6:4} = 10, 1, 101, then 00: lw x5, 180(x2)
    assert_eq!(Cpu::uncompress(0x52da), Ok(0x0b41_2283));
    let w = Cpu::uncompress(0x52da).unwrap();
    assert_eq!(get_bits_extended(w, 31, 20), 180);
    assert_eq!(get_rs1(w), 2);
    assert_eq!(get_rd(w), 5);
}

#[test]
fn expands_jump_and_link() {
    // offset bits 5:3 = 001 and a zero bit: jal x1, 2
    assert_eq!(Cpu::uncompress(0x200a), Ok(0x0020_00ef));
    // bits 5:3 = 010: jal x1, 4
    assert_eq!(Cpu::uncompress(0x2012), Ok(0x0040_00ef));
    // bit 12 alone is the sign: jal x1, -2048
    assert_eq!(Cpu::uncompress(0x3002), Ok(0x801f_f0ef));
    assert_eq!(get_imm_jal(Cpu::uncompress(0x3002).unwrap()), 0xffff_f800);
    // bits 12, 8, 10:9, 6, 7, 2, 11 all clear, 5:3 = 111: jal x1, 14
    let w = Cpu::uncompress(0x203a).unwrap();
    assert_eq!(get_imm_jal(w), 14);
    assert_eq!(get_rd(w), 1);
    assert_eq!(w & 0x7f, 0x6f);
}

#[test]
fn rejects_the_rest() {
    assert!(Cpu::uncompress(0x9426).is_err()); // bit 12 set
    assert!(Cpu::uncompress(0x8402).is_err()); // jump through a register
    assert!(Cpu::uncompress(0x6002).is_err()); // 64-bit load from the stack
    assert!(Cpu::uncompress(0xc002).is_err()); // store word to the stack
    assert!(Cpu::uncompress(0x0000).is_err()); // quadrant 0
    assert!(Cpu::uncompress(0x0001).is_err()); // quadrant 1
}
