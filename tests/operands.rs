use rs_riscv_sc::cpu::{AddSub, State, R2R};
use rs_riscv_sc::register::Register;

#[test]
fn state_holds_operands() {
    let s = State::new(5, 6, 7, 0b010_0000);
    assert_eq!(s.read_rd(), 5);
    assert_eq!(s.read_rs1(), 6);
    assert_eq!(s.read_rs2(), 7);
    assert_eq!(s.read_rs3(), 0b010_0000);
}

#[test]
fn add_sub_on_a_copy() {
    let mut regs = [0u64; 32];
    regs[6] = 10;
    regs[7] = 3;
    let reg = Register::new(regs);
    let added = AddSub.exec_register(State::new(5, 6, 7, 0), &reg).unwrap();
    assert_eq!(added.read(5, 8), Ok(13));
    let subtracted = AddSub.exec_register(State::new(5, 7, 6, 0b010_0000), &reg).unwrap();
    assert_eq!(subtracted.read(5, 8), Ok(0xffff_fff9));
    assert_eq!(reg.read(5, 8), Ok(0));
    let to_zero = AddSub.exec_register(State::new(0, 6, 7, 0), &reg).unwrap();
    assert_eq!(to_zero.read(0, 8), Ok(0));
}

#[test]
fn add_sub_rejects_bad_registers() {
    let reg = Register::new([0; 32]);
    assert!(AddSub.exec_register(State::new(32, 1, 2, 0), &reg).is_err());
    assert!(AddSub.exec_register(State::new(1, 40, 2, 0), &reg).is_err());
}
